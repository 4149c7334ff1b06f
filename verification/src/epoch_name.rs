//! Names of checkpoint directories: `epoch_` followed by the epoch in decimal
//! digits.
//!
//! Nothing but digits may follow the prefix: no sign, no blank, no separator.
//! Leading zeros are allowed. The number must fit a `u32`.

use vstd::prelude::*;

verus! {

/// What the name of a directory says about it.
#[derive(Clone, Copy, Debug, PartialEq, Eq, Structural)]
pub enum DirName {
    /// The name does not start with `epoch_`: not a checkpoint directory.
    Other,
    /// The checkpoint directory of this epoch.
    Epoch(u32),
    /// The name starts with `epoch_`, but what follows is not a decimal
    /// number that fits an epoch.
    Malformed,
}

/// The prefix of every checkpoint directory name.
pub open spec fn epoch_prefix() -> Seq<char> {
    seq!['e', 'p', 'o', 'c', 'h', '_']
}

/// Whether `name` starts with the prefix.
pub open spec fn has_epoch_prefix(name: Seq<char>) -> bool {
    name.len() >= 6 && name.subrange(0, 6) == epoch_prefix()
}

/// Whether `c` is one of the decimal digits `0` to `9`.
pub open spec fn is_digit(c: char) -> bool {
    '0' <= c && c <= '9'
}

/// The number that a decimal digit denotes.
pub open spec fn digit_value(c: char) -> nat {
    if is_digit(c) {
        (c as u32 - '0' as u32) as nat
    } else {
        0
    }
}

/// Whether `s` holds decimal digits only.
pub open spec fn all_digits(s: Seq<char>) -> bool {
    forall|i: int| 0 <= i < s.len() ==> is_digit(s[i])
}

/// The number that a sequence of decimal digits denotes.
pub open spec fn decimal_value(s: Seq<char>) -> nat
    decreases s.len(),
{
    if s.len() == 0 {
        0
    } else {
        decimal_value(s.drop_last()) * 10 + digit_value(s.last())
    }
}

/// What follows the prefix in a checkpoint directory name.
pub open spec fn epoch_digits(name: Seq<char>) -> Seq<char> {
    name.subrange(6, name.len() as int)
}

/// Classification of a directory name.
pub open spec fn classify_dir_name(name: Seq<char>) -> DirName {
    if !has_epoch_prefix(name) {
        DirName::Other
    } else if epoch_digits(name).len() > 0 && all_digits(epoch_digits(name)) && decimal_value(
        epoch_digits(name),
    ) <= u32::MAX {
        DirName::Epoch(decimal_value(epoch_digits(name)) as u32)
    } else {
        DirName::Malformed
    }
}

/// A number never gets smaller when digits are appended to it.
proof fn lemma_decimal_value_grows(s: Seq<char>, k: int)
    requires
        0 <= k <= s.len(),
    ensures
        decimal_value(s.subrange(0, k)) <= decimal_value(s),
    decreases s.len(),
{
    if k < s.len() {
        lemma_decimal_value_grows(s.drop_last(), k);
        assert(s.drop_last().subrange(0, k) =~= s.subrange(0, k));
    } else {
        assert(s.subrange(0, k) =~= s);
    }
}

/// The character at position `i` of the prefix.
fn prefix_char(i: usize) -> (c: char)
    requires
        i < 6,
    ensures
        c == epoch_prefix()[i as int],
{
    if i == 0 {
        'e'
    } else if i == 1 {
        'p'
    } else if i == 2 {
        'o'
    } else if i == 3 {
        'c'
    } else if i == 4 {
        'h'
    } else {
        '_'
    }
}

/// Classifies a directory name.
pub fn parse_dir_name(name: &str) -> (kind: DirName)
    ensures
        kind == classify_dir_name(name@),
{
    let len = name.unicode_len();
    if len < 6 {
        return DirName::Other;
    }
    let mut i: usize = 0;
    let mut value: u64 = 0;
    for c in it: name.chars()
        invariant
            it.seq() == name@,
            i == it.index(),
            len == name@.len(),
            len >= 6,
            i <= 6 ==> name@.subrange(0, i as int) == epoch_prefix().subrange(0, i as int),
            i <= 6 ==> value == 0,
            i > 6 ==> has_epoch_prefix(name@),
            i > 6 ==> all_digits(name@.subrange(6, i as int)),
            i > 6 ==> value == decimal_value(name@.subrange(6, i as int)),
            value <= u32::MAX,
    {
        if i < 6 {
            if c != prefix_char(i) {
                proof {
                    assert(name@.subrange(0, 6)[i as int] != epoch_prefix()[i as int]);
                }
                return DirName::Other;
            }
            proof {
                assert(name@.subrange(0, i + 1) =~= epoch_prefix().subrange(0, i + 1));
            }
        } else {
            proof {
                if i == 6 {
                    assert(name@.subrange(0, 6) =~= epoch_prefix());
                }
            }
            if c < '0' || c > '9' {
                proof {
                    assert(epoch_digits(name@)[i - 6] == c);
                    assert(!is_digit(epoch_digits(name@)[i - 6]));
                }
                return DirName::Malformed;
            }
            let ghost before = name@.subrange(6, i as int);
            let ghost after = name@.subrange(6, i + 1);
            proof {
                assert(after.drop_last() =~= before);
                assert(after.last() == c);
                if i == 6 {
                    assert(before =~= Seq::<char>::empty());
                }
                assert(decimal_value(after) == decimal_value(before) * 10 + digit_value(c));
            }
            value = value * 10 + (c as u32 - '0' as u32) as u64;
            if value > u32::MAX as u64 {
                proof {
                    assert(after =~= epoch_digits(name@).subrange(0, i + 1 - 6));
                    lemma_decimal_value_grows(epoch_digits(name@), i + 1 - 6);
                }
                return DirName::Malformed;
            }
            proof {
                assert forall|k: int| 0 <= k < after.len() implies is_digit(after[k]) by {
                    if k < before.len() {
                        assert(before[k] == after[k]);
                    }
                }
            }
        }
        i += 1;
    }
    proof {
        assert(name@.subrange(6, i as int) =~= epoch_digits(name@));
        if i == 6 {
            assert(name@.subrange(0, 6) =~= epoch_prefix());
        }
    }
    if i == 6 {
        DirName::Malformed
    } else {
        DirName::Epoch(value as u32)
    }
}

} // verus!
