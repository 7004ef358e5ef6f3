use vstd::prelude::*;

verus! {

/// Address the service listens on.
pub struct Server {
    pub bind_address: String,
    pub bind_port: u16,
}

/// One test case of a problem: where its input and expected output live and
/// its limits (time in microseconds, memory in bytes).
pub struct Case {
    pub input_file: String,
    pub answer_file: String,
    pub time_limit: u64,
    pub memory_limit: u64,
}

/// A problem: its identifier, name, type tag and ordered test cases.
pub struct Problem {
    pub id: u32,
    pub name: String,
    pub problem_type: String,
    pub cases: Vec<Case>,
}

/// A language: its lookup name, the name of its source file and the command
/// that builds a submission, as a list of tokens.
pub struct Language {
    pub name: String,
    pub file_name: String,
    pub command: Vec<String>,
}

/// The catalog of problems and languages the service grades against.
pub struct Config {
    pub server: Server,
    pub problems: Vec<Problem>,
    pub languages: Vec<Language>,
}

impl Clone for Case {
    fn clone(&self) -> (r: Self)
        ensures
            r == *self,
    {
        Case {
            input_file: self.input_file.clone(),
            answer_file: self.answer_file.clone(),
            time_limit: self.time_limit,
            memory_limit: self.memory_limit,
        }
    }
}

impl Problem {
    /// Two problems hold the same data.
    pub open spec fn same(self, o: Problem) -> bool {
        &&& self.id == o.id
        &&& self.name == o.name
        &&& self.problem_type == o.problem_type
        &&& self.cases@ == o.cases@
    }
}

impl Clone for Problem {
    fn clone(&self) -> (r: Self)
        ensures
            r.same(*self),
    {
        let cases = self.cases.clone();
        assert(cases@ =~= self.cases@);
        Problem { id: self.id, name: self.name.clone(), problem_type: self.problem_type.clone(), cases }
    }
}

impl Language {
    /// Two languages hold the same data.
    pub open spec fn same(self, o: Language) -> bool {
        &&& self.name == o.name
        &&& self.file_name == o.file_name
        &&& self.command@ == o.command@
    }
}

impl Clone for Language {
    fn clone(&self) -> (r: Self)
        ensures
            r.same(*self),
    {
        let command = self.command.clone();
        assert(command@ =~= self.command@);
        Language { name: self.name.clone(), file_name: self.file_name.clone(), command }
    }
}

impl Config {
    /// Every problem's cases can be numbered by a `u32`.
    pub open spec fn wf(self) -> bool {
        forall|i: int| 0 <= i < self.problems@.len() ==> (#[trigger] self.problems@[i]).cases@.len() <= u32::MAX
    }

    /// Looks up the first problem with the given identifier and returns a copy of it.
    pub fn find_problem(&self, id: u32) -> (r: Option<Problem>)
        ensures
            r.is_none() <==> (forall|i: int| 0 <= i < self.problems@.len() ==> self.problems@[i].id != id),
            r matches Some(p) ==> exists|i: int|
                0 <= i < self.problems@.len() && self.problems@[i].id == id && p.same(self.problems@[i])
                && (forall|j: int| 0 <= j < i ==> self.problems@[j].id != id),
    {
        let mut k: usize = 0;
        while k < self.problems.len()
            invariant
                k <= self.problems@.len(),
                forall|j: int| 0 <= j < k ==> self.problems@[j].id != id,
            decreases self.problems@.len() - k,
        {
            if self.problems[k].id == id {
                return Some(self.problems[k].clone());
            }
            k += 1;
        }
        None
    }

    /// Looks up the first language with the given name and returns a copy of it.
    pub fn find_language(&self, name: &String) -> (r: Option<Language>)
        ensures
            r.is_none() <==> (forall|i: int| 0 <= i < self.languages@.len() ==> self.languages@[i].name@ != name@),
            r matches Some(l) ==> exists|i: int|
                0 <= i < self.languages@.len() && self.languages@[i].name@ == name@ && l.same(self.languages@[i])
                && (forall|j: int| 0 <= j < i ==> self.languages@[j].name@ != name@),
    {
        let mut k: usize = 0;
        while k < self.languages.len()
            invariant
                k <= self.languages@.len(),
                forall|j: int| 0 <= j < k ==> self.languages@[j].name@ != name@,
            decreases self.languages@.len() - k,
        {
            if self.languages[k].name == *name {
                return Some(self.languages[k].clone());
            }
            k += 1;
        }
        None
    }
}

} // verus!
