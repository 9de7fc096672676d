//! Named configuration parameters.
//!
//! The host holds string-valued parameters under string keys.  A value
//! comes back like a text field read: truncated to the caller's size
//! budget.  Values are plain ASCII by the host's interop convention,
//! which the host state's well-formedness records.

use vstd::prelude::*;
use crate::error::ApiError;
use crate::host::{Host, ParamCell};
use vstd::string::{StrSliceExecFns, StringExecFnsIsAscii};

verus! {

/// The value stored under a parameter key: the latest entry wins.
pub open spec fn spec_find_param(s: Seq<ParamCell>, key: Seq<char>) -> Option<Seq<char>>
    decreases s.len(),
{
    if s.len() == 0 {
        None
    } else if s.last().key@ == key {
        Some(s.last().value@)
    } else {
        spec_find_param(s.drop_last(), key)
    }
}

impl Host {
    /// Sets a parameter: how a test double plays the configuration the
    /// real host is started with.  Values are ASCII text, as the
    /// C-string interop convention assumes.
    pub fn install_param(&mut self, key: &str, value: &str)
        requires
            vstd::string::is_ascii(value),
        ensures
            spec_find_param(final(self).params@, key@) == Some(value@),
            forall|k2: Seq<char>|
                k2 != key@ ==> #[trigger] spec_find_param(final(self).params@, k2)
                    == spec_find_param(old(self).params@, k2),
            final(self).same_records(*old(self)),
            final(self).same_resources(*old(self)),
            final(self).same_log(*old(self)),
            final(self).syscalls@ == old(self).syscalls@,
            final(self).symbols@ == old(self).symbols@,
            final(self).wf() == old(self).wf(),
    {
        let cell = ParamCell { key: key.to_owned(), value: value.to_owned() };
        self.params.push(cell);
        proof {
            let pre = old(self).params@;
            let post = self.params@;
            assert(post.drop_last() =~= pre);
            assert(post.last().key@ == key@ && post.last().value@ == value@);
            assert forall|k2: Seq<char>| k2 != key@ implies #[trigger] spec_find_param(post, k2)
                == spec_find_param(pre, k2) by {
                assert(post.drop_last() =~= pre);
            }
            assert(final(self).wf() == old(self).wf()) by {
                assert(forall|i: int| 0 <= i < pre.len() ==> post[i] == pre[i]);
                assert(vstd::utf8::is_ascii_chars(post.last().value@));
            }
        }
    }
}

/// Fetches a named parameter's value, truncated to at most `max_size`
/// characters.  Fails with [`ApiError::NotFound`] for an unknown key.
pub fn get_param_value(host: &Host, key: &str, max_size: u32) -> (r: Result<String, ApiError>)
    requires
        host.wf(),
    ensures
        match spec_find_param(host.params@, key@) {
            Some(v) => match r {
                Ok(s) => s@ == if v.len() <= max_size {
                    v
                } else {
                    v.take(max_size as int)
                },
                Err(_) => false,
            },
            None => r == Err::<String, ApiError>(ApiError::NotFound),
        },
{
    let want = key.to_owned();
    let n = host.params.len();
    let mut i: usize = n;
    proof {
        assert(host.params@.take(n as int) =~= host.params@);
    }
    while i > 0
        invariant
            i <= host.params@.len(),
            want@ == key@,
            host.wf(),
            spec_find_param(host.params@, key@) == spec_find_param(
                host.params@.take(i as int),
                key@,
            ),
        decreases i,
    {
        i = i - 1;
        proof {
            assert(host.params@.take(i as int + 1).drop_last() =~= host.params@.take(i as int));
            assert(host.params@.take(i as int + 1).last() == host.params@[i as int]);
        }
        if host.params[i].key == want {
            let value = &host.params[i].value;
            let len = value.as_str().unicode_len();
            if len <= max_size as usize {
                return Ok(value.clone());
            }
            proof {
                assert(vstd::utf8::is_ascii_chars(value@));
            }
            let cut = value.as_str().substring_ascii(0, max_size as usize);
            proof {
                assert(cut@ =~= value@.take(max_size as int));
            }
            return Ok(cut.to_owned());
        }
    }
    proof {
        assert(host.params@.take(0) =~= Seq::<ParamCell>::empty());
    }
    Err(ApiError::NotFound)
}

} // verus!
