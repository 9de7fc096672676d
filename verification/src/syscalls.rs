//! System-call metadata lookups.
//!
//! The host keeps a table of system calls: identifier, canonical name and
//! parameter list.  Name lookups that miss fail with
//! [`ApiError::NotFound`]; an identifier with no table entry does not fail
//! but gets a synthesized name of the form `syscall_<hex id>`, the
//! conventional tracing-tool fallback.

use vstd::prelude::*;
use crate::error::ApiError;
use crate::host::{Host, SyscallInfo};

verus! {

/// One parameter of a system call's canonical signature.
#[derive(Debug)]
pub struct SyscallParam {
    pub name: String,
    /// Whether the parameter carries a pointer.
    pub is_pointer: bool,
}

/// A system call's canonical signature: its name and its parameters in
/// declaration order.
#[derive(Debug)]
pub struct SyscallDeclaration {
    pub name: String,
    pub params: Vec<SyscallParam>,
}

/// Two parameter lists describe the same parameters: same length, same
/// names, same pointer-ness, in the same order.
pub open spec fn spec_params_match(a: Seq<SyscallParam>, b: Seq<SyscallParam>) -> bool {
    &&& a.len() == b.len()
    &&& forall|i: int|
        0 <= i < a.len() ==> (#[trigger] a[i]).name@ == b[i].name@ && a[i].is_pointer
            == b[i].is_pointer
}

/// The table entry for a system-call id: the latest entry wins.
pub open spec fn spec_find_syscall_by_id(s: Seq<SyscallInfo>, id: u16) -> Option<SyscallInfo>
    decreases s.len(),
{
    if s.len() == 0 {
        None
    } else if s.last().id == id {
        Some(s.last())
    } else {
        spec_find_syscall_by_id(s.drop_last(), id)
    }
}

/// The table entry for a system-call name: the latest entry wins.
pub open spec fn spec_find_syscall_by_name(s: Seq<SyscallInfo>, name: Seq<char>) -> Option<
    SyscallInfo,
>
    decreases s.len(),
{
    if s.len() == 0 {
        None
    } else if s.last().name@ == name {
        Some(s.last())
    } else {
        spec_find_syscall_by_name(s.drop_last(), name)
    }
}

/// The hexadecimal digit of a value below sixteen, lower case.
pub open spec fn spec_hex_digit(n: int) -> char {
    if n == 0 {
        '0'
    } else if n == 1 {
        '1'
    } else if n == 2 {
        '2'
    } else if n == 3 {
        '3'
    } else if n == 4 {
        '4'
    } else if n == 5 {
        '5'
    } else if n == 6 {
        '6'
    } else if n == 7 {
        '7'
    } else if n == 8 {
        '8'
    } else if n == 9 {
        '9'
    } else if n == 10 {
        'a'
    } else if n == 11 {
        'b'
    } else if n == 12 {
        'c'
    } else if n == 13 {
        'd'
    } else if n == 14 {
        'e'
    } else {
        'f'
    }
}

/// The hexadecimal digits of a nonnegative value, most significant
/// first, without leading zeros (a single `0` for zero itself).
pub open spec fn spec_hex_seq(n: int) -> Seq<char>
    decreases n,
{
    if n < 16 {
        seq![spec_hex_digit(n)]
    } else {
        spec_hex_seq(n / 16).push(spec_hex_digit(n % 16))
    }
}

/// The synthesized name of a system call the table does not know:
/// `syscall_` followed by the id in lower-case hexadecimal, the
/// conventional tracing-tool fallback.
pub open spec fn spec_syscall_fallback_name(id: u16) -> Seq<char> {
    seq!['s', 'y', 's', 'c', 'a', 'l', 'l', '_'] + spec_hex_seq(id as int)
}

fn hex_digit_str(d: u16) -> (s: &'static str)
    requires
        d < 16,
    ensures
        s@ == seq![spec_hex_digit(d as int)],
{
    proof {
        reveal_strlit("0");
        reveal_strlit("1");
        reveal_strlit("2");
        reveal_strlit("3");
        reveal_strlit("4");
        reveal_strlit("5");
        reveal_strlit("6");
        reveal_strlit("7");
        reveal_strlit("8");
        reveal_strlit("9");
        reveal_strlit("a");
        reveal_strlit("b");
        reveal_strlit("c");
        reveal_strlit("d");
        reveal_strlit("e");
        reveal_strlit("f");
    }
    let s: &'static str = match d {
        0 => "0",
        1 => "1",
        2 => "2",
        3 => "3",
        4 => "4",
        5 => "5",
        6 => "6",
        7 => "7",
        8 => "8",
        9 => "9",
        10 => "a",
        11 => "b",
        12 => "c",
        13 => "d",
        14 => "e",
        _ => "f",
    };
    proof {
        assert(s@ =~= seq![spec_hex_digit(d as int)]);
    }
    s
}

/// Writes a value in lower-case hexadecimal, without leading zeros.
pub fn hex_string(n: u16) -> (s: String)
    ensures
        s@ == spec_hex_seq(n as int),
    decreases n,
{
    if n < 16 {
        hex_digit_str(n).to_owned()
    } else {
        let mut s = hex_string(n / 16);
        s.append(hex_digit_str(n % 16));
        proof {
            assert(s@ =~= spec_hex_seq(n as int));
        }
        s
    }
}

impl Host {
    /// Adds an entry to the system-call table: how a test double plays
    /// the metadata the real host compiles in.
    pub fn install_syscall(&mut self, id: u16, name: &str, params: Vec<SyscallParam>)
        ensures
            ({
                let c = spec_find_syscall_by_id(final(self).syscalls@, id)->Some_0;
                &&& spec_find_syscall_by_id(final(self).syscalls@, id) is Some
                &&& c.id == id
                &&& c.name@ == name@
                &&& c.params@ == params@
                &&& spec_find_syscall_by_name(final(self).syscalls@, name@) == Some(c)
            }),
            forall|id2: u16|
                id2 != id ==> #[trigger] spec_find_syscall_by_id(final(self).syscalls@, id2)
                    == spec_find_syscall_by_id(old(self).syscalls@, id2),
            forall|n2: Seq<char>|
                n2 != name@ ==> #[trigger] spec_find_syscall_by_name(final(self).syscalls@, n2)
                    == spec_find_syscall_by_name(old(self).syscalls@, n2),
            final(self).same_records(*old(self)),
            final(self).same_resources(*old(self)),
            final(self).same_log(*old(self)),
            final(self).symbols@ == old(self).symbols@,
            final(self).params@ == old(self).params@,
            final(self).wf() == old(self).wf(),
    {
        let cell = SyscallInfo { id, name: name.to_owned(), params };
        self.syscalls.push(cell);
        proof {
            let pre = old(self).syscalls@;
            let post = self.syscalls@;
            assert(post.drop_last() =~= pre);
            assert forall|id2: u16| id2 != id implies #[trigger] spec_find_syscall_by_id(
                post,
                id2,
            ) == spec_find_syscall_by_id(pre, id2) by {
                assert(post.drop_last() =~= pre);
            }
            assert forall|n2: Seq<char>| n2 != name@ implies #[trigger] spec_find_syscall_by_name(
                post,
                n2,
            ) == spec_find_syscall_by_name(pre, n2) by {
                assert(post.drop_last() =~= pre);
            }
        }
    }
}

/// The name of a system call.  An id the table knows maps to its
/// canonical name; any other id gets the synthesized `syscall_<hex id>`
/// fallback rather than an error.
pub fn get_syscall_name(host: &Host, id: u16) -> (r: Result<String, ApiError>)
    ensures
        match r {
            Ok(s) => s@ == match spec_find_syscall_by_id(host.syscalls@, id) {
                Some(c) => c.name@,
                None => spec_syscall_fallback_name(id),
            },
            Err(_) => false,
        },
{
    let n = host.syscalls.len();
    let mut i: usize = n;
    proof {
        assert(host.syscalls@.take(n as int) =~= host.syscalls@);
    }
    while i > 0
        invariant
            i <= host.syscalls@.len(),
            spec_find_syscall_by_id(host.syscalls@, id) == spec_find_syscall_by_id(
                host.syscalls@.take(i as int),
                id,
            ),
        decreases i,
    {
        i = i - 1;
        proof {
            assert(host.syscalls@.take(i as int + 1).drop_last() =~= host.syscalls@.take(
                i as int,
            ));
            assert(host.syscalls@.take(i as int + 1).last() == host.syscalls@[i as int]);
        }
        if host.syscalls[i].id == id {
            return Ok(host.syscalls[i].name.clone());
        }
    }
    proof {
        assert(host.syscalls@.take(0) =~= Seq::<SyscallInfo>::empty());
        reveal_strlit("syscall_");
    }
    let mut s = "syscall_".to_owned();
    s.append(hex_string(id).as_str());
    proof {
        assert(s@ =~= spec_syscall_fallback_name(id));
    }
    Ok(s)
}

/// The id of a system call.  Fails with [`ApiError::NotFound`] for an
/// unknown name.
pub fn get_syscall_id(host: &Host, name: &str) -> (r: Result<u16, ApiError>)
    ensures
        match spec_find_syscall_by_name(host.syscalls@, name@) {
            Some(c) => r == Ok::<u16, ApiError>(c.id),
            None => r == Err::<u16, ApiError>(ApiError::NotFound),
        },
{
    let want = name.to_owned();
    let n = host.syscalls.len();
    let mut i: usize = n;
    proof {
        assert(host.syscalls@.take(n as int) =~= host.syscalls@);
    }
    while i > 0
        invariant
            i <= host.syscalls@.len(),
            want@ == name@,
            spec_find_syscall_by_name(host.syscalls@, name@) == spec_find_syscall_by_name(
                host.syscalls@.take(i as int),
                name@,
            ),
        decreases i,
    {
        i = i - 1;
        proof {
            assert(host.syscalls@.take(i as int + 1).drop_last() =~= host.syscalls@.take(
                i as int,
            ));
            assert(host.syscalls@.take(i as int + 1).last() == host.syscalls@[i as int]);
        }
        if host.syscalls[i].name == want {
            return Ok(host.syscalls[i].id);
        }
    }
    proof {
        assert(host.syscalls@.take(0) =~= Seq::<SyscallInfo>::empty());
    }
    Err(ApiError::NotFound)
}

fn clone_params(src: &Vec<SyscallParam>) -> (out: Vec<SyscallParam>)
    ensures
        spec_params_match(out@, src@),
{
    let mut out: Vec<SyscallParam> = Vec::new();
    let mut i: usize = 0;
    while i < src.len()
        invariant
            i <= src@.len(),
            out@.len() == i,
            forall|j: int|
                0 <= j < i ==> (#[trigger] out@[j]).name@ == src@[j].name@ && out@[j].is_pointer
                    == src@[j].is_pointer,
        decreases src@.len() - i,
    {
        let p = SyscallParam { name: src[i].name.clone(), is_pointer: src[i].is_pointer };
        out.push(p);
        i = i + 1;
    }
    out
}

/// The full declaration of a system call: its name and parameter list,
/// order preserved from the canonical signature.  Fails with
/// [`ApiError::NotFound`] for an unknown name.
pub fn get_syscall_declaration(host: &Host, name: &str) -> (r: Result<
    SyscallDeclaration,
    ApiError,
>)
    ensures
        match spec_find_syscall_by_name(host.syscalls@, name@) {
            Some(c) => match r {
                Ok(d) => d.name@ == c.name@ && spec_params_match(d.params@, c.params@),
                Err(_) => false,
            },
            None => r == Err::<SyscallDeclaration, ApiError>(ApiError::NotFound),
        },
{
    let want = name.to_owned();
    let n = host.syscalls.len();
    let mut i: usize = n;
    proof {
        assert(host.syscalls@.take(n as int) =~= host.syscalls@);
    }
    while i > 0
        invariant
            i <= host.syscalls@.len(),
            want@ == name@,
            spec_find_syscall_by_name(host.syscalls@, name@) == spec_find_syscall_by_name(
                host.syscalls@.take(i as int),
                name@,
            ),
        decreases i,
    {
        i = i - 1;
        proof {
            assert(host.syscalls@.take(i as int + 1).drop_last() =~= host.syscalls@.take(
                i as int,
            ));
            assert(host.syscalls@.take(i as int + 1).last() == host.syscalls@[i as int]);
        }
        if host.syscalls[i].name == want {
            let decl = SyscallDeclaration {
                name: host.syscalls[i].name.clone(),
                params: clone_params(&host.syscalls[i].params),
            };
            return Ok(decl);
        }
    }
    proof {
        assert(host.syscalls@.take(0) =~= Seq::<SyscallInfo>::empty());
    }
    Err(ApiError::NotFound)
}

} // verus!
