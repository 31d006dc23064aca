//! Symbolic rendering of POSIX permission bits.

use vstd::prelude::*;
use vstd::string::StringExecFns;

verus! {

/// The three classes of users that a permission triple is granted to.
#[derive(Clone, Copy, Debug, PartialEq, Eq, Structural)]
pub enum Owner {
    User,
    Group,
    Other,
}

/// The read, write and execute bit of a class, in that order.
pub open spec fn class_masks(owner: Owner) -> Seq<u32> {
    match owner {
        Owner::User => seq![0o400u32, 0o200u32, 0o100u32],
        Owner::Group => seq![0o040u32, 0o020u32, 0o010u32],
        Owner::Other => seq![0o004u32, 0o002u32, 0o001u32],
    }
}

/// The character shown for one permission bit: its letter when the bit is
/// set in `mode`, a dash when it is not.
pub open spec fn flag_char(mode: u32, mask: u32, letter: char) -> char {
    if mode & mask == 0 {
        '-'
    } else {
        letter
    }
}

/// The three characters of one class.
pub open spec fn triple_text(mode: u32, owner: Owner) -> Seq<char> {
    let masks = class_masks(owner);
    seq![
        flag_char(mode, masks[0], 'r'),
        flag_char(mode, masks[1], 'w'),
        flag_char(mode, masks[2], 'x'),
    ]
}

/// The nine characters of a mode: user, group, other.
pub open spec fn mode_text(mode: u32) -> Seq<char> {
    triple_text(mode, Owner::User) + triple_text(mode, Owner::Group) + triple_text(
        mode,
        Owner::Other,
    )
}

/// The single bit that decides position `i` of the mode text, counted from
/// the left: the user's read bit first, the others' execute bit last.
pub open spec fn position_mask(i: int) -> u32 {
    if i == 0 {
        0o400
    } else if i == 1 {
        0o200
    } else if i == 2 {
        0o100
    } else if i == 3 {
        0o040
    } else if i == 4 {
        0o020
    } else if i == 5 {
        0o010
    } else if i == 6 {
        0o004
    } else if i == 7 {
        0o002
    } else {
        0o001
    }
}

/// The letter that position `i` shows when its bit is set.
pub open spec fn position_letter(i: int) -> char {
    if i % 3 == 0 {
        'r'
    } else if i % 3 == 1 {
        'w'
    } else {
        'x'
    }
}

impl Owner {
    /// The read, write and execute masks of this class.
    pub fn masks(&self) -> (masks: [u32; 3])
        ensures
            masks@ == class_masks(*self),
    {
        let masks: [u32; 3] = match self {
            Owner::User => [0o400, 0o200, 0o100],
            Owner::Group => [0o040, 0o020, 0o010],
            Owner::Other => [0o004, 0o002, 0o001],
        };
        assert(masks@ =~= class_masks(*self));
        masks
    }
}

/// Renders the three permission bits of one class as `r`, `w`, `x` or `-`.
pub fn mk_triple(mode: u32, owner: Owner) -> (triple: String)
    ensures
        triple@ == triple_text(mode, owner),
{
    let masks = owner.masks();
    let read: u32 = masks[0];
    let write: u32 = masks[1];
    let execute: u32 = masks[2];
    proof {
        reveal_strlit("-");
        reveal_strlit("r");
        reveal_strlit("w");
        reveal_strlit("x");
    }
    let mut triple = String::new();
    triple.append(if mode & read == 0 { "-" } else { "r" });
    triple.append(if mode & write == 0 { "-" } else { "w" });
    triple.append(if mode & execute == 0 { "-" } else { "x" });
    assert(triple@ =~= triple_text(mode, owner));
    triple
}

/// Renders the low nine permission bits of `mode` as the familiar
/// `rwxr-xr-x` string. Bits above them (setuid, setgid, sticky, file type)
/// have no influence.
pub fn format_mode(mode: u32) -> (text: String)
    ensures
        text@ == mode_text(mode),
        text@.len() == 9,
        forall|i: int|
            0 <= i < 9 ==> #[trigger] text@[i] == flag_char(
                mode,
                position_mask(i),
                position_letter(i),
            ),
{
    let mut text = mk_triple(mode, Owner::User);
    let group = mk_triple(mode, Owner::Group);
    let other = mk_triple(mode, Owner::Other);
    text.append(group.as_str());
    text.append(other.as_str());
    proof {
        assert(text@ =~= mode_text(mode));
        lemma_mode_text_positions(mode);
    }
    text
}

/// Every mode renders to exactly nine characters, each of them decided by
/// one bit alone: position `i` shows its letter when the bit
/// `position_mask(i)` is set, and a dash when it is not.
pub proof fn lemma_mode_text_positions(mode: u32)
    ensures
        mode_text(mode).len() == 9,
        forall|i: int|
            0 <= i < 9 ==> #[trigger] mode_text(mode)[i] == flag_char(
                mode,
                position_mask(i),
                position_letter(i),
            ),
        forall|i: int|
            0 <= i < 9 ==> {
                let c = #[trigger] mode_text(mode)[i];
                c == 'r' || c == 'w' || c == 'x' || c == '-'
            },
{
    let t = mode_text(mode);
    assert(t.len() == 9);
    assert forall|i: int| 0 <= i < 9 implies #[trigger] t[i] == flag_char(
        mode,
        position_mask(i),
        position_letter(i),
    ) by {
        if i < 3 {
            assert(t[i] == triple_text(mode, Owner::User)[i]);
        } else if i < 6 {
            assert(t[i] == triple_text(mode, Owner::Group)[i - 3]);
        } else {
            assert(t[i] == triple_text(mode, Owner::Other)[i - 6]);
        }
    }
}

/// Bits outside the low nine never change the rendering.
pub proof fn lemma_mode_text_ignores_high_bits(mode: u32)
    ensures
        mode_text(mode & 0o777) == mode_text(mode),
{
    assert((mode & 0o777) & 0o400 == mode & 0o400) by (bit_vector);
    assert((mode & 0o777) & 0o200 == mode & 0o200) by (bit_vector);
    assert((mode & 0o777) & 0o100 == mode & 0o100) by (bit_vector);
    assert((mode & 0o777) & 0o040 == mode & 0o040) by (bit_vector);
    assert((mode & 0o777) & 0o020 == mode & 0o020) by (bit_vector);
    assert((mode & 0o777) & 0o010 == mode & 0o010) by (bit_vector);
    assert((mode & 0o777) & 0o004 == mode & 0o004) by (bit_vector);
    assert((mode & 0o777) & 0o002 == mode & 0o002) by (bit_vector);
    assert((mode & 0o777) & 0o001 == mode & 0o001) by (bit_vector);
    assert(mode_text(mode & 0o777) =~= mode_text(mode));
}

} // verus!
