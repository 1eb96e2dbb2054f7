use vstd::prelude::*;
use vstd::string::StringSliceAdditionalSpecFns;

verus! {

/// The build variant whose contract binaries are loaded.
#[derive(Clone, Copy, Debug, PartialEq, Eq, Structural)]
pub enum TestEnv {
    Debug,
    Release,
}

/// The lower-case form of an ASCII letter; any other byte is kept.
pub open spec fn lower(byte: u8) -> u8 {
    if 65 <= byte <= 90 {
        (byte + 32) as u8
    } else {
        byte
    }
}

/// Whether `name` is `word` but for the case of its ASCII letters.
pub open spec fn names(name: Seq<u8>, word: Seq<u8>) -> bool {
    &&& name.len() == word.len()
    &&& forall|i: int| 0 <= i < name.len() ==> lower(#[trigger] name[i]) == word[i]
}

/// The bytes of "debug".
pub open spec fn debug_word() -> Seq<u8> {
    seq![100u8, 101, 98, 117, 103]
}

/// The bytes of "release".
pub open spec fn release_word() -> Seq<u8> {
    seq![114u8, 101, 108, 101, 97, 115, 101]
}

/// The variant that `name` names, whatever the case of its letters: "debug" or
/// "release". Any other name names none.
pub open spec fn named(name: Seq<u8>) -> Option<TestEnv> {
    if names(name, debug_word()) {
        Some(TestEnv::Debug)
    } else if names(name, release_word()) {
        Some(TestEnv::Release)
    } else {
        None
    }
}

/// Whether `name` is `word` but for the case of its ASCII letters.
fn is_word(name: &[u8], word: &[u8]) -> (b: bool)
    ensures
        b == names(name@, word@),
{
    if name.len() != word.len() {
        return false;
    }
    let mut i: usize = 0;
    while i < name.len()
        invariant
            i <= name.len(),
            name.len() == word.len(),
            forall|j: int| 0 <= j < i ==> lower(#[trigger] name@[j]) == word@[j],
        decreases name.len() - i,
    {
        let byte = name[i];
        let lowered = if 65 <= byte && byte <= 90 {
            byte + 32
        } else {
            byte
        };
        if lowered != word[i] {
            return false;
        }
        i = i + 1;
    }
    true
}

impl TestEnv {
    /// Reads a variant from the bytes of its name.
    pub fn from_name(name: &[u8]) -> (env: Option<TestEnv>)
        ensures
            env == named(name@),
    {
        let debug: [u8; 5] = [100, 101, 98, 117, 103];
        let release: [u8; 7] = [114, 101, 108, 101, 97, 115, 101];
        assert(debug@ =~= debug_word());
        assert(release@ =~= release_word());
        if is_word(name, debug.as_slice()) {
            Some(TestEnv::Debug)
        } else if is_word(name, release.as_slice()) {
            Some(TestEnv::Release)
        } else {
            None
        }
    }

    /// The directory, below the build directory, that holds the variant's binaries.
    pub fn load_prefix(&self) -> (prefix: &'static str)
        ensures
            prefix@ == match self {
                TestEnv::Debug => "debug"@,
                TestEnv::Release => "release"@,
            },
    {
        match self {
            TestEnv::Debug => "debug",
            TestEnv::Release => "release",
        }
    }
}

impl std::str::FromStr for TestEnv {
    type Err = &'static str;

    /// Reads a variant from its name; a name that names none is "no match".
    fn from_str(s: &str) -> (r: Result<Self, Self::Err>)
        ensures
            match r {
                Ok(env) => named(s.spec_bytes()) == Some(env),
                Err(e) => named(s.spec_bytes()) is None && e@ == "no match"@,
            },
    {
        match TestEnv::from_name(s.as_bytes()) {
            Some(env) => Ok(env),
            None => Err("no match"),
        }
    }
}

} // verus!
