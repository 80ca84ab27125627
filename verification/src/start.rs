//! `start` subcommand: launches the application, greeting the resolved
//! recipient. Its override policy: the recipient words given on the command
//! line, joined by single spaces, replace the loaded recipient; when no word
//! is given the loaded value stands.

use crate::config::AssimilateConfig;
use crate::errors::AssimilateError;
use vstd::prelude::*;

verus! {

/// The first `n` parts joined with single spaces.
pub open spec fn join_prefix(parts: Seq<Seq<char>>, n: int) -> Seq<char>
    decreases n,
{
    if n <= 0 {
        Seq::empty()
    } else if n == 1 {
        parts[0]
    } else {
        join_prefix(parts, n - 1) + seq![' '] + parts[n - 1]
    }
}

/// All parts joined with single spaces.
pub open spec fn join_spaces(parts: Seq<Seq<char>>) -> Seq<char> {
    join_prefix(parts, parts.len() as int)
}

/// Argument bundle of the `start` subcommand.
pub struct StartCmd {
    /// To whom are we saying hello? Left empty, the loaded recipient stands.
    pub recipient: Vec<String>,
}

impl StartCmd {
    /// The override policy as a value: the recipient this subcommand
    /// resolves, given the loaded one.
    pub open spec fn resolved_recipient(&self, base: Seq<char>) -> Seq<char> {
        if self.recipient@.len() == 0 {
            base
        } else {
            join_spaces(self.recipient.deep_view())
        }
    }

    /// Merges the command-line words into the loaded configuration. Pure:
    /// a fresh configuration comes out, nothing is mutated in place.
    pub fn override_config(&self, config: AssimilateConfig) -> (r: Result<
        AssimilateConfig,
        AssimilateError,
    >)
        ensures
            r is Ok,
            r->Ok_0@ == self.resolved_recipient(config@),
    {
        if self.recipient.len() == 0 {
            return Ok(config);
        }
        let ghost parts = self.recipient.deep_view();
        let mut out = String::new();
        let mut i: usize = 0;
        proof {
            assert(parts.len() == self.recipient@.len());
        }
        while i < self.recipient.len()
            invariant
                i <= self.recipient@.len(),
                parts == self.recipient.deep_view(),
                parts.len() == self.recipient@.len(),
                out@ == join_prefix(parts, i as int),
            decreases self.recipient@.len() - i,
        {
            proof {
                reveal_strlit(" ");
                assert(parts[i as int] == self.recipient@[i as int]@);
            }
            if i > 0 {
                out.append(" ");
                proof {
                    assert(out@ =~= join_prefix(parts, i as int) + seq![' ']);
                }
            }
            out.append(self.recipient[i].as_str());
            proof {
                assert(out@ == join_prefix(parts, i + 1));
            }
            i = i + 1;
        }
        Ok(AssimilateConfig::with_recipient(out))
    }
}

} // verus!
