//! Where the log file goes.
use vstd::prelude::*;
use vstd::utf8::encode_utf8;

use crate::config::{app_dir_name, opt_text};
use crate::paths::{PathError, home_dir, join_text, opt_bytes, path_join, path_of_text};

verus! {

/// `.local`
pub open spec fn dot_local() -> Seq<char> {
    seq!['.', 'l', 'o', 'c', 'a', 'l']
}

/// `state`
pub open spec fn state_word() -> Seq<char> {
    seq!['s', 't', 'a', 't', 'e']
}

/// `~/.local/state/flowbit` for the home directory `home`.
pub open spec fn home_log_dir(home: Seq<u8>) -> Seq<u8> {
    path_join(
        path_join(path_join(home, encode_utf8(dot_local())), encode_utf8(state_word())),
        encode_utf8(app_dir_name()),
    )
}

/// The log directory: `$XDG_STATE_HOME/flowbit` when the variable is set,
/// else `~/.local/state/flowbit`.
pub open spec fn log_dir_for(xdg_state_home: Option<Seq<char>>, home: Option<Seq<u8>>) -> Result<Seq<u8>, PathError> {
    match xdg_state_home {
        Some(x) => Ok(path_join(encode_utf8(x), encode_utf8(app_dir_name()))),
        None => match home {
            Some(h) => Ok(home_log_dir(h)),
            None => Err(PathError::NoHomeDirectory),
        },
    }
}

/// A path result in terms of bytes.
pub open spec fn dir_result(r: Result<Vec<u8>, PathError>) -> Result<Seq<u8>, PathError> {
    match r {
        Ok(p) => Ok(p@),
        Err(e) => Err(e),
    }
}

/// The log directory, given `$XDG_STATE_HOME` and the home directory.
pub fn log_dir_from(xdg_state_home: Option<String>, home: Option<Vec<u8>>) -> (r: Result<Vec<u8>, PathError>)
    ensures
        dir_result(r) == log_dir_for(opt_text(xdg_state_home), opt_bytes(home)),
{
    proof {
        reveal_strlit("flowbit");
        reveal_strlit(".local");
        reveal_strlit("state");
        assert("flowbit"@ =~= app_dir_name());
        assert(".local"@ =~= dot_local());
        assert("state"@ =~= state_word());
    }
    let state_dir = match xdg_state_home {
        Some(x) => path_of_text(x.as_str()),
        None => match home {
            Some(h) => {
                let l = join_text(h.as_slice(), ".local");
                join_text(l.as_slice(), "state")
            },
            None => {
                return Err(PathError::NoHomeDirectory);
            },
        },
    };
    Ok(join_text(state_dir.as_slice(), "flowbit"))
}

/// The log directory, given `$XDG_STATE_HOME`; the home directory is looked
/// up only when the variable is unset.
pub fn log_dir(xdg_state_home: Option<String>) -> (r: Result<Vec<u8>, PathError>)
    ensures
        xdg_state_home matches Some(x) ==> r matches Ok(p) && p@ == path_join(
            encode_utf8(x@),
            encode_utf8(app_dir_name()),
        ),
        xdg_state_home is None ==> match r {
            Ok(p) => exists|h: Seq<u8>| p@ == home_log_dir(h),
            Err(e) => e == PathError::NoHomeDirectory,
        },
{
    match xdg_state_home {
        Some(x) => log_dir_from(Some(x), None),
        None => {
            let home = home_dir();
            let r = log_dir_from(None, home);
            proof {
                if r is Ok {
                    let h = opt_bytes(home).unwrap();
                    assert(r.unwrap()@ == home_log_dir(h));
                }
            }
            r
        },
    }
}

} // verus!
