//! The pure half of persistence: where a unit file goes and what is
//! written into it.
//!
//! Privilege is an explicit input: a privileged save targets the
//! system-wide unit directory, an unprivileged one a user-scoped path
//! (whose leading `~` the caller expands before touching the disk).
//! The writing itself is I/O and stays outside this crate.

use vstd::prelude::*;

use crate::text::lines_view;

verus! {

/// The serialized unit file: every buffer line followed by `\n`, so the
/// file ends with a trailing newline.
pub open spec fn spec_unit_file(lines: Seq<Seq<char>>) -> Seq<char>
    decreases lines.len(),
{
    if lines.len() == 0 {
        Seq::empty()
    } else {
        lines[0] + seq!['\n'] + spec_unit_file(lines.drop_first())
    }
}

/// Serializing one more line appends it and a newline.
pub proof fn lemma_unit_file_push(lines: Seq<Seq<char>>, x: Seq<char>)
    ensures
        spec_unit_file(lines.push(x)) == spec_unit_file(lines) + x + seq!['\n'],
    decreases lines.len(),
{
    if lines.len() == 0 {
        let p = lines.push(x);
        assert(p[0] == x);
        assert(p.drop_first() =~= Seq::<Seq<char>>::empty());
        assert(spec_unit_file(p.drop_first()) == Seq::<char>::empty());
        assert(spec_unit_file(p) == x + seq!['\n'] + Seq::<char>::empty());
        assert(x + seq!['\n'] + Seq::<char>::empty() =~= spec_unit_file(lines) + x + seq!['\n']);
    } else {
        assert(lines.push(x).drop_first() =~= lines.drop_first().push(x));
        lemma_unit_file_push(lines.drop_first(), x);
        assert(spec_unit_file(lines.push(x)) =~= spec_unit_file(lines) + x + seq!['\n']);
    }
}

/// The path a save writes to: the system-wide systemd unit directory
/// when privileged, a user-scoped one otherwise.
pub fn save_target(service_name: &str, is_privileged: bool) -> (r: String)
    ensures
        is_privileged ==> r@ == "/etc/systemd/system/"@ + service_name@ + ".service"@,
        !is_privileged ==> r@ == "~/.config/systemd/user/"@ + service_name@ + ".service"@,
{
    let mut out = if is_privileged {
        String::from_str("/etc/systemd/system/")
    } else {
        String::from_str("~/.config/systemd/user/")
    };
    out.append(service_name);
    out.append(".service");
    out
}

/// The contents a save writes: the buffer's lines joined by `\n` with a
/// trailing newline.
pub fn save_payload(lines: &Vec<String>) -> (r: String)
    ensures
        r@ == spec_unit_file(lines_view(lines@)),
{
    let mut out = String::new();
    let mut i: usize = 0;
    proof {
        assert(lines_view(lines@).subrange(0, 0) =~= Seq::<Seq<char>>::empty());
    }
    while i < lines.len()
        invariant
            i <= lines.len(),
            out@ == spec_unit_file(lines_view(lines@).subrange(0, i as int)),
        decreases lines.len() - i,
    {
        out.append(lines[i].as_str());
        out.push('\n');
        proof {
            let lv = lines_view(lines@);
            assert(lv.subrange(0, i as int + 1) =~= lv.subrange(0, i as int).push(lv[i as int]));
            lemma_unit_file_push(lv.subrange(0, i as int), lv[i as int]);
        }
        i = i + 1;
    }
    proof {
        assert(lines_view(lines@).subrange(0, lines@.len() as int) =~= lines_view(lines@));
    }
    out
}

} // verus!
