//! Save slots: where each slot's file lives, and save timestamps.

use std::time::{Duration, SystemTime, SystemTimeError};
use crate::plugin::Plugin;
use vstd::prelude::*;

verus! {

#[verifier::external_type_specification]
#[verifier::external_body]
pub struct ExSystemTime(SystemTime);

#[verifier::external_type_specification]
#[verifier::external_body]
pub struct ExSystemTimeError(SystemTimeError);

/// `std::time::SystemTime::now`: the wall clock. Nothing is promised of it.
#[verifier::external_body]
fn system_time_now() -> (t: SystemTime) {
    SystemTime::now()
}

/// `std::time::SystemTime::duration_since` the Unix epoch: the time since
/// 1970-01-01, or an error for a clock set before it. It depends on the
/// clock reading, so nothing is promised of it.
#[verifier::external_body]
fn since_unix_epoch(t: &SystemTime) -> (d: Result<Duration, SystemTimeError>) {
    t.duration_since(std::time::UNIX_EPOCH)
}

/// `std::time::Duration::as_secs`: the whole seconds of a duration.
/// `Duration` is opaque here, so nothing is promised of the number.
#[verifier::external_body]
fn duration_as_secs(d: &Duration) -> (s: u64) {
    d.as_secs()
}

/// Seconds since the Unix epoch according to the wall clock, or 0 when the
/// clock reads earlier than the epoch.
pub fn current_unix_timestamp() -> u64 {
    let now = system_time_now();
    match since_unix_epoch(&now) {
        Ok(d) => duration_as_secs(&d),
        Err(_) => 0,
    }
}

/// The character of a decimal digit.
pub open spec fn digit_char(d: int) -> char {
    if d == 0 { '0' } else if d == 1 { '1' } else if d == 2 { '2' } else if d == 3 { '3' }
    else if d == 4 { '4' } else if d == 5 { '5' } else if d == 6 { '6' } else if d == 7 { '7' }
    else if d == 8 { '8' } else { '9' }
}

/// The digit characters are `'0'` to `'9'` in order: digit `d` is the
/// character `d` places after `'0'`.
pub proof fn lemma_digit_chars(d: int)
    requires
        0 <= d < 10,
    ensures
        digit_char(d) as u32 == '0' as u32 + d,
{
}

/// The decimal representation of `n`, without leading zeros.
pub open spec fn decimal(n: nat) -> Seq<char>
    decreases n,
{
    if n < 10 { seq![digit_char(n as int)] } else { decimal(n / 10).push(digit_char((n % 10) as int)) }
}

fn digit_str(d: usize) -> (s: &'static str)
    requires
        d < 10,
    ensures
        s@ == seq![digit_char(d as int)],
{
    proof {
        reveal_strlit("0"); reveal_strlit("1"); reveal_strlit("2"); reveal_strlit("3"); reveal_strlit("4");
        reveal_strlit("5"); reveal_strlit("6"); reveal_strlit("7"); reveal_strlit("8"); reveal_strlit("9");
    }
    if d == 0 { "0" } else if d == 1 { "1" } else if d == 2 { "2" } else if d == 3 { "3" }
    else if d == 4 { "4" } else if d == 5 { "5" } else if d == 6 { "6" } else if d == 7 { "7" }
    else if d == 8 { "8" } else { "9" }
}

/// Append the decimal representation of `n` to `out`.
fn push_decimal(out: &mut String, n: usize)
    ensures
        final(out)@ == old(out)@ + decimal(n as nat),
    decreases n,
{
    if n < 10 {
        out.append(digit_str(n));
    } else {
        push_decimal(out, n / 10);
        out.append(digit_str(n % 10));
        proof {
            assert(decimal(n as nat) == decimal((n / 10) as nat).push(digit_char((n % 10) as int)));
            assert(old(out)@ + decimal((n / 10) as nat) + seq![digit_char((n % 10) as int)]
                =~= old(out)@ + decimal(n as nat));
        }
    }
}

/// The file name of save slot `slot`: `slot_<slot>.json`.
pub open spec fn slot_file_name(slot: nat) -> Seq<char> {
    "slot_"@ + decimal(slot) + ".json"@
}

/// `dir` joined with `name` as `Path::join` does: an absolute `name`
/// replaces `dir`; otherwise `/` separates them unless `dir` is empty or
/// already ends with it.
pub open spec fn join_path(dir: Seq<char>, name: Seq<char>) -> Seq<char> {
    if name.len() > 0 && name[0] == '/' {
        name
    } else if dir.len() == 0 {
        name
    } else if dir.last() == '/' {
        dir + name
    } else {
        dir + "/"@ + name
    }
}

/// `dir` joined with `name` (see [`join_path`]).
pub fn join_paths(dir: &str, name: &str) -> (p: String)
    ensures
        p@ == join_path(dir@, name@),
{
    let name_len = name.unicode_len();
    if name_len > 0 && name.get_char(0) == '/' {
        return name.to_owned();
    }
    let dir_len = dir.unicode_len();
    if dir_len == 0 {
        return name.to_owned();
    }
    let mut path = dir.to_owned();
    if dir.get_char(dir_len - 1) != '/' {
        path.append("/");
    }
    path.append(name);
    proof {
        reveal_strlit("/");
        assert(path@ =~= join_path(dir@, name@));
    }
    path
}

/// Number of save slots.
pub const SLOT_COUNT: usize = 3;

/// The label of save slot `slot` on the save-select screen: `Slot <slot + 1>`.
pub fn slot_label(slot: usize) -> (s: String)
    requires
        slot < usize::MAX,
    ensures
        s@ == "Slot "@ + decimal(slot as nat + 1),
{
    let mut s = "Slot ".to_owned();
    push_decimal(&mut s, slot + 1);
    s
}

/// Manages the save slots in one directory.
pub struct SaveManager {
    save_dir: String,
}

impl SaveManager {
    /// The directory holding the save files.
    pub closed spec fn dir(&self) -> Seq<char> {
        self.save_dir@
    }

    /// A manager for the slots in `save_dir` (the directory is created by
    /// whoever does the file I/O).
    pub fn new(save_dir: String) -> (m: Self)
        ensures
            m.dir() == save_dir@,
    {
        SaveManager { save_dir }
    }

    /// The directory holding the save files.
    pub fn save_dir(&self) -> (d: &str)
        ensures
            d@ == self.dir(),
    {
        self.save_dir.as_str()
    }

    /// The path of the file of save slot `slot`.
    pub fn slot_path(&self, slot: usize) -> (p: String)
        ensures
            p@ == join_path(self.dir(), slot_file_name(slot as nat)),
    {
        let mut name = "slot_".to_owned();
        push_decimal(&mut name, slot);
        name.append(".json");
        join_paths(self.save_dir.as_str(), name.as_str())
    }
}

/// Different slots live in different files.
pub proof fn lemma_slot_paths_distinct(dir: Seq<char>, a: nat, b: nat)
    requires
        a != b,
    ensures
        join_path(dir, slot_file_name(a)) != join_path(dir, slot_file_name(b)),
{
    lemma_decimal_injective(a, b);
    let na = slot_file_name(a);
    let nb = slot_file_name(b);
    reveal_strlit("slot_");
    reveal_strlit(".json");
    if na == nb {
        assert(na.subrange(5, na.len() - 5) =~= decimal(a));
        assert(nb.subrange(5, nb.len() - 5) =~= decimal(b));
    }
    assert(na != nb);
    if join_path(dir, na) == join_path(dir, nb) {
        let pa = join_path(dir, na);
        let pb = join_path(dir, nb);
        let k = pa.len() - na.len();
        assert(pa.subrange(k, pa.len() as int) =~= na);
        assert(pb.subrange(k, pb.len() as int) =~= nb);
    }
}

/// Distinct numbers have distinct decimal representations.
proof fn lemma_decimal_injective(a: nat, b: nat)
    requires
        a != b,
    ensures
        decimal(a) != decimal(b),
    decreases a + b,
{
    if a < 10 && b < 10 {
        assert(decimal(a)[0] != decimal(b)[0]);
    } else if a < 10 {
        lemma_decimal_len(b / 10);
        assert(decimal(b).len() >= 2);
    } else if b < 10 {
        lemma_decimal_len(a / 10);
        assert(decimal(a).len() >= 2);
    } else {
        if a / 10 != b / 10 {
            lemma_decimal_injective(a / 10, b / 10);
            if decimal(a) == decimal(b) {
                assert(decimal(a).drop_last() =~= decimal(a / 10));
                assert(decimal(b).drop_last() =~= decimal(b / 10));
            }
        } else {
            assert(a % 10 != b % 10);
            assert(decimal(a).last() != decimal(b).last());
        }
    }
}

proof fn lemma_decimal_len(n: nat)
    ensures
        decimal(n).len() >= 1,
    decreases n,
{
    if n >= 10 {
        lemma_decimal_len(n / 10);
    }
}

/// Registers the save manager.
pub struct SavePlugin;

impl Plugin for SavePlugin {
    /// The name this plugin reports.
    open spec fn spec_name(&self) -> Seq<char> {
        "gur_save"@
    }

    /// The plugin's unique name.
    fn name(&self) -> (n: &'static str)
        ensures
            n@ == "gur_save"@,
    {
        "gur_save"
    }
}

} // verus!
