//! Mock system files shared by the system-call layer.

use vstd::prelude::*;
use vstd::string::StringSliceAdditionalSpecFns;
use crate::text::{dec_text, dec_text_spec};

verus! {

/// Manager of mock system files such as `/etc/passwd`.
pub struct Vfs;

/// `etc`.
pub open spec fn etc_name() -> Seq<u8> {
    seq![101u8, 116u8, 99u8]
}

/// `passwd`.
pub open spec fn passwd_name() -> Seq<u8> {
    seq![112u8, 97u8, 115u8, 115u8, 119u8, 100u8]
}

/// The position of the last `/` in `s`.
pub open spec fn last_slash(s: Seq<u8>) -> Option<int>
    decreases s.len(),
{
    if s.len() == 0 {
        None
    } else if s.last() == 47u8 {
        Some(s.len() - 1)
    } else {
        last_slash(s.drop_last())
    }
}

/// Where the last `/` is, and that no `/` follows it.
pub proof fn lemma_last_slash(s: Seq<u8>)
    ensures
        match last_slash(s) {
            Some(k) => 0 <= k < s.len() && s[k] == 47u8 && forall|j: int| k < j < s.len() ==> s[j] != 47u8,
            None => forall|j: int| 0 <= j < s.len() ==> s[j] != 47u8,
        },
    decreases s.len(),
{
    if s.len() > 0 && s.last() != 47u8 {
        lemma_last_slash(s.drop_last());
        assert(forall|j: int| 0 <= j < s.len() - 1 ==> s.drop_last()[j] == s[j]);
    }
}

/// The components of a path: the pieces between its `/` separators, in order (empty
/// pieces included).
pub open spec fn components(s: Seq<u8>) -> Seq<Seq<u8>>
    decreases s.len(),
{
    match last_slash(s) {
        None => seq![s],
        Some(k) => {
            proof {
                lemma_last_slash(s);
            }
            components(s.subrange(0, k)).push(s.subrange(k + 1, s.len() as int))
        },
    }
}

/// One component applied to the directory reached so far: empty and `.` stay, `..`
/// goes up (staying at the root), any other name goes down.
pub open spec fn enter(dirs: Seq<Seq<u8>>, c: Seq<u8>) -> Seq<Seq<u8>> {
    if c.len() == 0 || c == seq![46u8] {
        dirs
    } else if c == seq![46u8, 46u8] {
        if dirs.len() > 0 { dirs.drop_last() } else { dirs }
    } else {
        dirs.push(c)
    }
}

/// Where the components lead from the root, as the names on the way.
pub open spec fn resolve(cs: Seq<Seq<u8>>) -> Seq<Seq<u8>>
    decreases cs.len(),
{
    if cs.len() == 0 {
        Seq::empty()
    } else {
        enter(resolve(cs.drop_last()), cs.last())
    }
}

/// The path names the file `/etc/passwd`: it is absolute, its last component is
/// `passwd` (so it names a file, not a directory), and with repeated `/`, `.` and `..`
/// resolved from the root it leads to `etc`, then `passwd`.
pub open spec fn refers_to_passwd(p: Seq<u8>) -> bool {
    &&& p.len() > 0
    &&& p[0] == 47u8
    &&& components(p).last() == passwd_name()
    &&& resolve(components(p)) == seq![etc_name(), passwd_name()]
}

/// Bytes equal to the given ones.
fn bytes_eq(a: &[u8], b: &[u8]) -> (r: bool)
    ensures
        r == (a@ == b@),
{
    if a.len() != b.len() {
        return false;
    }
    let mut i: usize = 0;
    while i < a.len()
        invariant
            a.len() == b.len(),
            0 <= i <= a.len(),
            forall|k: int| 0 <= k < i ==> a@[k] == b@[k],
        decreases a.len() - i,
    {
        if a[i] != b[i] {
            return false;
        }
        i = i + 1;
    }
    assert(a@ =~= b@);
    true
}

/// Applies one component to the names on the way (see `enter`).
fn enter_exec(dirs: &mut Vec<Vec<u8>>, c: Vec<u8>)
    ensures
        final(dirs).deep_view() == enter(old(dirs).deep_view(), c@),
{
    let ghost before = dirs.deep_view();
    let dot: [u8; 1] = [46u8];
    let dotdot: [u8; 2] = [46u8, 46u8];
    assert(dot@ == seq![46u8]);
    assert(dotdot@ == seq![46u8, 46u8]);
    if c.len() == 0 || bytes_eq(c.as_slice(), &dot) {
        return;
    }
    if bytes_eq(c.as_slice(), &dotdot) {
        if dirs.len() > 0 {
            let _ = dirs.pop();
            assert(dirs.deep_view() =~= before.drop_last());
        }
        return;
    }
    let ghost cv = c@;
    proof {
        crate::loader::stack::lemma_bytes_view(c);
    }
    dirs.push(c);
    assert(dirs.deep_view() =~= before.push(cv));
}

/// The components of a prefix ending just before a `/` whose own prefix ends just
/// before the previous `/`.
proof fn lemma_components_step(s: Seq<u8>, start: int, i: int)
    requires
        1 <= start <= i <= s.len(),
        s[start - 1] == 47u8,
        forall|k: int| start <= k < i ==> s[k] != 47u8,
    ensures
        components(s.subrange(0, i)) == components(s.subrange(0, start - 1)).push(s.subrange(start, i)),
{
    let t = s.subrange(0, i);
    lemma_last_slash(t);
    match last_slash(t) {
        Some(k) => {
            if k < start - 1 {
                assert(t[start - 1] == 47u8);
            } else if k > start - 1 {
                assert(t[k] == s[k]);
            }
        },
        None => {
            assert(t[start - 1] == 47u8);
        },
    }
    assert(t.subrange(0, start - 1) =~= s.subrange(0, start - 1));
    assert(t.subrange(start, t.len() as int) =~= s.subrange(start, i));
}

/// The mock `/etc/passwd`: the root entry, then an entry for `user` with the given
/// user and group identifiers, home `/home/<user>` and shell `/bin/sh`.
pub open spec fn passwd_text(user: Seq<char>, uid: u32, gid: u32) -> Seq<char> {
    "root:x:0:0:root:/root:/bin/sh\n"@ + user + ":x:"@ + dec_text_spec(uid as nat) + ":"@ + dec_text_spec(gid as nat)
        + ":"@ + user + ":/home/"@ + user + ":/bin/sh\n"@
}

impl Vfs {
    /// Whether a path refers to `/etc/passwd`: an absolute path whose last component is
    /// `passwd` and which, with repeated `/`, `.` and `..` resolved from the root, leads to
    /// `/etc/passwd` (so `/etc/passwd` and `//etc/./passwd` do, `/xetc/passwd`,
    /// `etc/passwd` and `/etc/passwd/` do not).
    pub fn is_passwd_path(path: &str) -> (r: bool)
        ensures
            r == refers_to_passwd(path.spec_bytes()),
    {
        let b = path.as_bytes();
        let n = b.len();
        if n == 0 || b[0] != 47u8 {
            return false;
        }
        let mut dirs: Vec<Vec<u8>> = Vec::new();
        let mut start: usize = 1;
        let mut i: usize = 1;
        proof {
            assert(b@.subrange(0, 0) =~= Seq::<u8>::empty());
            assert(components(Seq::<u8>::empty()) == seq![Seq::<u8>::empty()]);
            let e = Seq::<u8>::empty();
            assert(seq![e].drop_last() =~= Seq::<Seq<u8>>::empty());
            assert(resolve(Seq::<Seq<u8>>::empty()) == Seq::<Seq<u8>>::empty());
            assert(resolve(seq![e]) == enter(resolve(seq![e].drop_last()), e));
            assert(resolve(seq![e]) =~= Seq::<Seq<u8>>::empty());
            assert(dirs.deep_view() =~= resolve(components(b@.subrange(0, 0))));
        }
        while i < n
            invariant
                n == b@.len(),
                b@ == path.spec_bytes(),
                1 <= start <= i <= n,
                b@[start - 1] == 47u8,
                forall|k: int| start <= k < i ==> b@[k] != 47u8,
                dirs.deep_view() == resolve(components(b@.subrange(0, start - 1))),
            decreases n - i,
        {
            if b[i] == 47u8 {
                let c = crate::loader::macho::copy_range(b, start, i);
                proof {
                    lemma_components_step(b@, start as int, i as int);
                    let cs = components(b@.subrange(0, start - 1));
                    assert(cs.push(c@).drop_last() =~= cs);
                }
                enter_exec(&mut dirs, c);
                start = i + 1;
            }
            i = i + 1;
        }
        let last = crate::loader::macho::copy_range(b, start, n);
        let last_ok = bytes_eq(last.as_slice(), &[112u8, 97u8, 115u8, 115u8, 119u8, 100u8]);
        proof {
            lemma_components_step(b@, start as int, n as int);
            assert(b@.subrange(0, n as int) =~= b@);
            let cs = components(b@.subrange(0, start - 1));
            assert(cs.push(last@).drop_last() =~= cs);
            assert(components(b@) == cs.push(last@));
            assert(components(b@).last() == last@);
            assert([112u8, 97u8, 115u8, 115u8, 119u8, 100u8]@ == passwd_name());
        }
        let ghost cs = components(b@.subrange(0, start - 1));
        let ghost lv = last@;
        enter_exec(&mut dirs, last);
        proof {
            assert(cs.push(lv).drop_last() =~= cs);
            assert(resolve(cs.push(lv)) == enter(resolve(cs), lv));
            assert(dirs.deep_view() == resolve(components(b@)));
            assert(dirs.deep_view().len() == dirs.len());
        }
        if !last_ok || dirs.len() != 2 {
            return false;
        }
        let etc: [u8; 3] = [101u8, 116u8, 99u8];
        let pw: [u8; 6] = [112u8, 97u8, 115u8, 115u8, 119u8, 100u8];
        assert(etc@ == etc_name());
        assert(pw@ == passwd_name());
        let e0 = bytes_eq(dirs[0].as_slice(), &etc);
        let e1 = bytes_eq(dirs[1].as_slice(), &pw);
        proof {
            let dv = dirs.deep_view();
            crate::loader::stack::lemma_bytes_view(dirs@[0]);
            crate::loader::stack::lemma_bytes_view(dirs@[1]);
            assert(dv[0] == dirs@[0]@ && dv[1] == dirs@[1]@);
            if e0 && e1 {
                assert(dv =~= seq![etc_name(), passwd_name()]);
            }
        }
        e0 && e1
    }

    /// The mock `/etc/passwd` for the host user `user` with identifiers `uid` and `gid`.
    pub fn passwd_content(user: &str, uid: u32, gid: u32) -> (r: String)
        ensures
            r@ == passwd_text(user@, uid, gid),
    {
        let mut s = String::new();
        s.push_str("root:x:0:0:root:/root:/bin/sh\n");
        s.push_str(user);
        s.push_str(":x:");
        s.push_str(dec_text(uid as u64).as_str());
        s.push_str(":");
        s.push_str(dec_text(gid as u64).as_str());
        s.push_str(":");
        s.push_str(user);
        s.push_str(":/home/");
        s.push_str(user);
        s.push_str(":/bin/sh\n");
        s
    }
}

} // verus!
