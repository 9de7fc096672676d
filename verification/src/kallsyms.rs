//! Kernel-symbol existence lookups.
//!
//! A single boundary call with a boolean answer and no failure mode
//! exposed to the caller: an unknown name simply reads as absent.

use vstd::prelude::*;
use crate::host::Host;

verus! {

/// The symbol table as a sequence of names.
pub open spec fn spec_symbols_model(host: Host) -> Seq<Seq<char>> {
    host.symbols@.map(|i: int, s: String| s@)
}

/// Whether the host's symbol table carries a name.
pub open spec fn spec_has_symbol(host: Host, name: Seq<char>) -> bool {
    exists|i: int| 0 <= i < host.symbols@.len() && host.symbols@[i]@ == name
}

impl Host {
    /// Adds a name to the symbol table: how a test double plays the
    /// kernel's symbol list, which the guest can only query.
    pub fn install_symbol(&mut self, name: &str)
        ensures
            final(self).symbols@.len() == old(self).symbols@.len() + 1,
            spec_symbols_model(*final(self)) == spec_symbols_model(*old(self)).push(name@),
            spec_has_symbol(*final(self), name@),
            forall|n2: Seq<char>|
                n2 != name@ ==> #[trigger] spec_has_symbol(*final(self), n2) == spec_has_symbol(
                    *old(self),
                    n2,
                ),
            final(self).same_records(*old(self)),
            final(self).same_resources(*old(self)),
            final(self).same_log(*old(self)),
            final(self).syscalls@ == old(self).syscalls@,
            final(self).params@ == old(self).params@,
            final(self).wf() == old(self).wf(),
    {
        self.symbols.push(name.to_owned());
        proof {
            assert(spec_symbols_model(*self) =~= spec_symbols_model(*old(self)).push(name@));
            assert(self.symbols@[self.symbols@.len() - 1]@ == name@);
            assert forall|n2: Seq<char>| n2 != name@ implies #[trigger] spec_has_symbol(
                *self,
                n2,
            ) == spec_has_symbol(*old(self), n2) by {
                if spec_has_symbol(*old(self), n2) {
                    let i = choose|i: int|
                        0 <= i < old(self).symbols@.len() && old(self).symbols@[i]@ == n2;
                    assert(self.symbols@[i]@ == n2);
                }
                if spec_has_symbol(*self, n2) {
                    let i = choose|i: int|
                        0 <= i < self.symbols@.len() && self.symbols@[i]@ == n2;
                    assert(i < old(self).symbols@.len());
                    assert(old(self).symbols@[i]@ == n2);
                }
            }
        }
    }
}

/// Whether a kernel symbol with this name exists.  No failure mode is
/// exposed: an unknown name returns false.
pub fn kallsyms_symbol_exists(host: &Host, name: &str) -> (r: bool)
    ensures
        r == spec_has_symbol(*host, name@),
{
    let want = name.to_owned();
    let mut i: usize = 0;
    while i < host.symbols.len()
        invariant
            i <= host.symbols@.len(),
            want@ == name@,
            forall|j: int| 0 <= j < i ==> host.symbols@[j]@ != name@,
        decreases host.symbols@.len() - i,
    {
        if host.symbols[i] == want {
            return true;
        }
        i = i + 1;
    }
    false
}

} // verus!
