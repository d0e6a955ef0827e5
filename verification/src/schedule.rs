//! Engine dispatch: the closed set of supported (language, engine) pairs
//! and the exact-match lookup that binds a job to an execution strategy.
use vstd::prelude::*;
use vstd::string::StrSliceExecFns;
use crate::parse::CommandLine;

verus! {

/// ASCII lowercase folding of one character; other characters are kept.
pub open spec fn lower_char(c: char) -> char {
    if 'A' <= c && c <= 'Z' {
        (((c as u8) + 32) as char)
    } else {
        c
    }
}

/// ASCII lowercase folding of a character sequence.
pub open spec fn spec_lower(s: Seq<char>) -> Seq<char> {
    Seq::new(s.len(), |i: int| lower_char(s[i]))
}

/// The closed set of supported (language, engine) pairs: the language tag
/// is matched case-insensitively, the engine identifier exactly.
pub open spec fn spec_supported(language: Seq<char>, engine: Seq<char>) -> bool {
    spec_lower(language) == "c"@ && engine == "xlibfuzzer"@
}

/// One execution strategy per supported (language, engine) pair. Adding an
/// engine means adding a variant here and a registration arm in
/// `select_engine`, never touching the dispatch mechanism.
#[derive(Clone, Copy, PartialEq, Eq, Structural, Debug)]
pub enum EngineStrategy {
    /// Coverage-guided native-code fuzzing of C and C++ targets.
    LibFuzzerC,
}

/// The typed failure of dispatch, naming the exact pair that had no match.
#[derive(Debug)]
pub struct UnsupportedCombination {
    pub language: String,
    pub engine: String,
}

/// True exactly when `s` is the language tag `c`, compared without regard
/// to ASCII case.
fn language_is_c(s: &str) -> (r: bool)
    ensures
        r == (spec_lower(s@) == "c"@),
{
    proof {
        reveal_strlit("c");
    }
    let n = s.unicode_len();
    if n != 1 {
        proof {
            assert(spec_lower(s@).len() == s@.len());
        }
        return false;
    }
    let c = s.get_char(0);
    let r = c == 'c' || c == 'C';
    proof {
        assert(spec_lower(s@).len() == 1);
        assert(spec_lower(s@)[0] == lower_char(s@[0]));
        if r {
            assert(spec_lower(s@) =~= "c"@);
        } else {
            assert(lower_char(s@[0]) != 'c');
            assert(spec_lower(s@)[0] != "c"@[0]);
        }
    }
    r
}

/// Exact-match lookup from the (language, engine) pair of a job to its
/// execution strategy. Pure: no side effects; unknown pairs are reported
/// as an `UnsupportedCombination` carrying the inputs, never a default.
pub fn select_engine(opt: &CommandLine) -> (r: Result<EngineStrategy, UnsupportedCombination>)
    ensures
        match r {
            Ok(e) => spec_supported(opt.language@, opt.engine@) && e == EngineStrategy::LibFuzzerC,
            Err(u) => !spec_supported(opt.language@, opt.engine@) && u.language@ == opt.language@
                && u.engine@ == opt.engine@,
        },
{
    let lang_ok = language_is_c(opt.language.as_str());
    let engine_ok = opt.engine == String::from_str("xlibfuzzer");
    if lang_ok && engine_ok {
        Ok(EngineStrategy::LibFuzzerC)
    } else {
        Err(
            UnsupportedCombination {
                language: opt.language.clone(),
                engine: opt.engine.clone(),
            },
        )
    }
}

} // verus!
