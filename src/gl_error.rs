//! Reading the graphics API's error queue: the codes that were drained from
//! it, oldest first, become a list of names or a report of a code that the
//! API does not define.

use vstd::prelude::*;
use vstd::string::StringExecFns;
use crate::gl_enum::{
    INVALID_ENUM, INVALID_FRAMEBUFFER_OPERATION, INVALID_OPERATION, INVALID_VALUE, NO_ERROR,
    OUT_OF_MEMORY, STACK_OVERFLOW, STACK_UNDERFLOW,
};

verus! {

/// What the error queue held.
#[derive(Debug)]
pub enum CheckError {
    /// The names of the errors, oldest first.
    Errors(Vec<String>),
    /// A code that no error of the API has.
    Unknown(u32),
}

/// The name of error `code`, if it is one.
pub open spec fn error_name_spec(code: u32) -> Option<Seq<char>> {
    if code == INVALID_ENUM {
        Some("INVALID_ENUM"@)
    } else if code == INVALID_VALUE {
        Some("INVALID_VALUE"@)
    } else if code == INVALID_OPERATION {
        Some("INVALID_OPERATION"@)
    } else if code == INVALID_FRAMEBUFFER_OPERATION {
        Some("INVALID_FRAMEBUFFER_OPERATION"@)
    } else if code == OUT_OF_MEMORY {
        Some("OUT_OF_MEMORY"@)
    } else if code == STACK_UNDERFLOW {
        Some("STACK_UNDERFLOW"@)
    } else if code == STACK_OVERFLOW {
        Some("STACK_OVERFLOW"@)
    } else {
        None
    }
}

/// Reads `codes` up to the first `NO_ERROR` (or the end): the names of
/// the errors in order, or the first code that is not an error's.
pub open spec fn check_spec(codes: Seq<u32>) -> Result<Seq<Seq<char>>, u32>
    decreases codes.len(),
{
    if codes.len() == 0 || codes[0] == NO_ERROR {
        Ok(Seq::empty())
    } else {
        match error_name_spec(codes[0]) {
            None => Err(codes[0]),
            Some(name) => match check_spec(codes.drop_first()) {
                Ok(names) => Ok(seq![name] + names),
                Err(c) => Err(c),
            },
        }
    }
}

/// The name of error `code`, if it is one.
pub fn error_name(code: u32) -> (r: Option<&'static str>)
    ensures
        match r {
            Some(s) => error_name_spec(code) == Some(s@),
            None => error_name_spec(code) is None,
        },
{
    if code == INVALID_ENUM {
        Some("INVALID_ENUM")
    } else if code == INVALID_VALUE {
        Some("INVALID_VALUE")
    } else if code == INVALID_OPERATION {
        Some("INVALID_OPERATION")
    } else if code == INVALID_FRAMEBUFFER_OPERATION {
        Some("INVALID_FRAMEBUFFER_OPERATION")
    } else if code == OUT_OF_MEMORY {
        Some("OUT_OF_MEMORY")
    } else if code == STACK_UNDERFLOW {
        Some("STACK_UNDERFLOW")
    } else if code == STACK_OVERFLOW {
        Some("STACK_OVERFLOW")
    } else {
        None
    }
}

/// Reads the codes drained from the error queue: `Ok` if
/// no error came before the first `NO_ERROR`, else the errors' names, or
/// the first code that is not an error's.
pub fn gl_check_error(codes: &[u32]) -> (r: Result<(), CheckError>)
    ensures
        match check_spec(codes@) {
            Ok(names) => if names.len() == 0 {
                r is Ok
            } else {
                r matches Err(CheckError::Errors(v)) && v@.map_values(|s: String| s@) == names
            },
            Err(c) => r matches Err(CheckError::Unknown(u)) && u == c,
        },
{
    let mut errs: Vec<String> = Vec::new();
    let mut i: usize = 0;
    proof {
        assert(codes@.subrange(0, codes@.len() as int) =~= codes@);
        if let Ok(names) = check_spec(codes@) {
            assert(errs@.map_values(|s: String| s@) + names =~= names);
        }
    }
    while i < codes.len()
        invariant
            0 <= i <= codes@.len(),
            forall|k: int| 0 <= k < i ==> codes@[k] != NO_ERROR && (#[trigger] error_name_spec(codes@[k])) is Some,
            errs@.len() == i,
            forall|k: int| 0 <= k < i ==> Some((#[trigger] errs@[k])@) == error_name_spec(codes@[k]),
            check_spec(codes@) == match check_spec(codes@.subrange(i as int, codes@.len() as int)) {
                Ok(names) => Ok(errs@.map_values(|s: String| s@) + names),
                Err(c) => Err(c),
            },
        ensures
            i == codes@.len() || codes@[i as int] == NO_ERROR,
        decreases codes@.len() - i,
    {
        let ghost rest = codes@.subrange(i as int, codes@.len() as int);
        assert(rest.drop_first() =~= codes@.subrange(i + 1, codes@.len() as int));
        let code = codes[i];
        if code == NO_ERROR {
            break;
        }
        match error_name(code) {
            None => {
                return Err(CheckError::Unknown(code));
            },
            Some(name) => {
                let ghost e0 = errs@;
                errs.push(String::from_str(name));
                proof {
                    assert(errs@.map_values(|s: String| s@) =~= e0.map_values(|s: String| s@).push(name@));
                    if let Ok(names) = check_spec(codes@.subrange(i + 1, codes@.len() as int)) {
                        assert(e0.map_values(|s: String| s@) + (seq![name@] + names) =~= e0.map_values(|s: String| s@).push(name@) + names);
                    }
                }
            },
        }
        i = i + 1;
    }
    proof {
        let rest = codes@.subrange(i as int, codes@.len() as int);
        assert(rest.len() == 0 || rest[0] == NO_ERROR);
        assert(check_spec(rest) == Ok::<Seq<Seq<char>>, u32>(Seq::empty()));
        assert(errs@.map_values(|s: String| s@) + Seq::<Seq<char>>::empty() =~= errs@.map_values(|s: String| s@));
    }
    if errs.len() == 0 {
        Ok(())
    } else {
        Err(CheckError::Errors(errs))
    }
}

} // verus!
