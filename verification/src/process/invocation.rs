//! What is to be run.
use super::error::ProcessError;
use vstd::prelude::*;

verus! {

/// One executable plus an argv vector. No shell command string is accepted. Paths are given as
/// the operating system has them, byte by byte.
#[derive(Clone, Debug, PartialEq, Eq)]
pub struct ProcessSpec {
    program: Vec<u8>,
    argv: Vec<String>,
    current_dir: Option<Vec<u8>>,
    stdin: Vec<u8>,
}

/// What a `ProcessSpec` holds.
pub struct Invocation {
    pub program: Seq<u8>,
    pub argv: Seq<Seq<char>>,
    pub current_dir: Option<Seq<u8>>,
    pub stdin: Seq<u8>,
}

pub open spec fn texts(strings: Seq<String>) -> Seq<Seq<char>> {
    strings.map_values(|s: String| s@)
}

impl View for ProcessSpec {
    type V = Invocation;

    closed spec fn view(&self) -> Invocation {
        Invocation {
            program: self.program@,
            argv: texts(self.argv@),
            current_dir: match self.current_dir {
                Some(dir) => Some(dir@),
                None => None,
            },
            stdin: self.stdin@,
        }
    }
}

impl Invocation {
    /// Why the invocation is rejected, when `is_directory` tells whether the current directory is
    /// one; the first reason counts.
    pub open spec fn rejection(self, is_directory: bool) -> Option<Rejection> {
        if self.program.len() == 0 {
            Some(Rejection::Text("program must not be empty"))
        } else if self.program.contains(0u8) {
            Some(Rejection::Text("program must not contain NUL"))
        } else if exists|k: int| 0 <= k < self.argv.len() && (#[trigger] self.argv[k]).contains('\0') {
            Some(Rejection::Text("argv must not contain NUL"))
        } else {
            match self.current_dir {
                Some(dir) => if dir.contains(0u8) {
                    Some(Rejection::Text("current_dir must not contain NUL"))
                } else if !is_directory {
                    Some(Rejection::NoDirectory(dir))
                } else {
                    None
                },
                None => None,
            }
        }
    }
}

/// Why an invocation is rejected.
pub enum Rejection {
    Text(&'static str),
    NoDirectory(Seq<u8>),
}

/// `error` reports the rejection.
pub open spec fn reports(error: ProcessError, rejection: Rejection) -> bool {
    match rejection {
        Rejection::Text(why) => error == ProcessError::InvalidSpec(why),
        Rejection::NoDirectory(dir) => error matches ProcessError::InvalidCurrentDirectory { path } && path@ == dir,
    }
}

fn holds_nul(bytes: &Vec<u8>) -> (r: bool)
    ensures
        r == bytes@.contains(0u8),
{
    let mut i: usize = 0;
    while i < bytes.len()
        invariant
            i <= bytes.len(),
            forall|k: int| 0 <= k < i ==> bytes@[k] != 0u8,
        decreases bytes.len() - i,
    {
        if bytes[i] == 0 {
            assert(bytes@[i as int] == 0u8);
            return true;
        }
        i = i + 1;
    }
    false
}

fn text_holds_nul(text: &str) -> (r: bool)
    ensures
        r == text@.contains('\0'),
{
    for c in it: text.chars()
        invariant
            it.seq() == text@,
            forall|k: int| 0 <= k < it.index() ==> text@[k] != '\0',
    {
        if c == '\0' {
            assert(text@[it.index() as int] == '\0');
            return true;
        }
    }
    false
}

fn copy_of(bytes: &[u8]) -> (r: Vec<u8>)
    ensures
        r@ == bytes@,
{
    let mut out: Vec<u8> = Vec::new();
    out.extend_from_slice(bytes);
    assert(out@ =~= bytes@);
    out
}

impl ProcessSpec {
    pub fn new(program: &[u8]) -> (r: ProcessSpec)
        ensures
            r@.program == program@,
            r@.argv == Seq::<Seq<char>>::empty(),
            r@.current_dir is None,
            r@.stdin == Seq::<u8>::empty(),
    {
        let r = ProcessSpec { program: copy_of(program), argv: Vec::new(), current_dir: None, stdin: Vec::new() };
        assert(r@.argv =~= Seq::empty());
        r
    }

    /// Adds an argument.
    pub fn arg(self, arg: &str) -> (r: ProcessSpec)
        ensures
            r@ == (Invocation { argv: self@.argv.push(arg@), ..self@ }),
    {
        let mut r: ProcessSpec = self;
        r.argv.push(arg.to_owned());
        assert(r@.argv =~= self@.argv.push(arg@));
        r
    }

    /// Adds arguments.
    pub fn args(self, args: &[&str]) -> (r: ProcessSpec)
        ensures
            r@ == (Invocation { argv: self@.argv + args@.map_values(|arg: &str| arg@), ..self@ }),
    {
        let mut r: ProcessSpec = self;
        let mut i: usize = 0;
        assert(self@.argv + args@.take(0).map_values(|arg: &str| arg@) =~= self@.argv);
        while i < args.len()
            invariant
                i <= args.len(),
                r@ == (Invocation { argv: self@.argv + args@.take(i as int).map_values(|arg: &str| arg@), ..self@ }),
            decreases args.len() - i,
        {
            let ghost before = r@.argv;
            r.argv.push(args[i].to_owned());
            proof {
                assert(r@.argv =~= before.push(args@[i as int]@));
                assert(before.push(args@[i as int]@) =~= self@.argv + args@.take(i + 1).map_values(|arg: &str| arg@));
            }
            i = i + 1;
        }
        assert(args@.take(args@.len() as int) =~= args@);
        r
    }

    /// Sets a trusted working directory.
    pub fn current_dir(self, current_dir: &[u8]) -> (r: ProcessSpec)
        ensures
            r@ == (Invocation { current_dir: Some(current_dir@), ..self@ }),
    {
        let mut r: ProcessSpec = self;
        r.current_dir = Some(copy_of(current_dir));
        r
    }

    /// Requires complete delivery of these bytes for an operationally complete outcome.
    pub fn stdin(self, stdin: Vec<u8>) -> (r: ProcessSpec)
        ensures
            r@ == (Invocation { stdin: stdin@, ..self@ }),
    {
        let mut r: ProcessSpec = self;
        r.stdin = stdin;
        r
    }

    pub fn program_bytes(&self) -> (r: &[u8])
        ensures
            r@ == self@.program,
    {
        self.program.as_slice()
    }

    pub fn arguments(&self) -> (r: &Vec<String>)
        ensures
            texts(r@) == self@.argv,
    {
        &self.argv
    }

    pub fn directory(&self) -> (r: Option<&[u8]>)
        ensures
            match (r, self@.current_dir) {
                (Some(a), Some(b)) => a@ == b,
                (None, None) => true,
                _ => false,
            },
    {
        match &self.current_dir {
            Some(dir) => Some(dir.as_slice()),
            None => None,
        }
    }

    pub fn input(&self) -> (r: &[u8])
        ensures
            r@ == self@.stdin,
    {
        self.stdin.as_slice()
    }

    /// Rejects what cannot be run. `is_directory` tells whether the working directory, where one
    /// is set, is a directory.
    pub fn validate(&self, is_directory: bool) -> (r: Result<(), ProcessError>)
        ensures
            match r {
                Ok(()) => self@.rejection(is_directory) is None,
                Err(e) => self@.rejection(is_directory) matches Some(why) && reports(e, why),
            },
    {
        if self.program.len() == 0 {
            return Err(ProcessError::InvalidSpec("program must not be empty"));
        }
        if holds_nul(&self.program) {
            return Err(ProcessError::InvalidSpec("program must not contain NUL"));
        }
        let mut i: usize = 0;
        while i < self.argv.len()
            invariant
                i <= self.argv.len(),
                self@.argv == texts(self.argv@),
                self@.program.len() > 0,
                !self@.program.contains(0u8),
                forall|k: int| 0 <= k < i ==> !(#[trigger] self@.argv[k]).contains('\0'),
            decreases self.argv.len() - i,
        {
            if text_holds_nul(self.argv[i].as_str()) {
                assert(self@.argv[i as int].contains('\0'));
                return Err(ProcessError::InvalidSpec("argv must not contain NUL"));
            }
            i = i + 1;
        }
        match &self.current_dir {
            Some(dir) => {
                if holds_nul(dir) {
                    return Err(ProcessError::InvalidSpec("current_dir must not contain NUL"));
                }
                if !is_directory {
                    return Err(ProcessError::InvalidCurrentDirectory { path: copy_of(dir.as_slice()) });
                }
            },
            None => {},
        }
        Ok(())
    }
}

} // verus!
