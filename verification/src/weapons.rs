//! Weapon classification and projectile timing.
//!
//! Weapon names are classified by case-insensitive substring matching,
//! written out here so the classification is exact: ASCII letters are
//! folded, any other character must match verbatim.

use vstd::prelude::*;

use crate::vecmath::spec_div_trunc;

verus! {

/// Projectile speed classes.
#[derive(Clone, Copy, Debug, PartialEq, Eq, Structural)]
pub enum WeaponType {
    Rifle,
    Pistol,
    Sniper,
    SMG,
    Shotgun,
    Unknown,
}

/// An ASCII upper-case letter folded to lower case; anything else as is.
pub open spec fn spec_lower(c: char) -> char {
    if 'A' <= c <= 'Z' {
        ((c as u8) + 32) as char
    } else {
        c
    }
}

/// Whether `pat` occurs at offset `o` of `s`, comparing case-folded.
pub open spec fn spec_matches_at(s: Seq<char>, pat: Seq<char>, o: int) -> bool {
    forall|k: int| 0 <= k < pat.len() ==> spec_lower(s[o + k]) == (#[trigger] pat[k])
}

/// Whether the case-folded `s` contains `pat` anywhere.
pub open spec fn spec_contains_ci(s: Seq<char>, pat: Seq<char>) -> bool {
    exists|o: int| 0 <= o <= s.len() - pat.len() && #[trigger] spec_matches_at(s, pat, o)
}

/// Folds one character to lower case.
fn lower_char(c: char) -> (r: char)
    ensures
        r == spec_lower(c),
{
    if c >= 'A' && c <= 'Z' {
        ((c as u8) + 32) as char
    } else {
        c
    }
}

/// Whether `pat` matches at offset `o` of `s`, case-folded.
fn matches_at(s: &str, pat: &str, o: usize) -> (r: bool)
    requires
        o + pat@.len() <= s@.len(),
        s@.len() <= usize::MAX,
    ensures
        r == spec_matches_at(s@, pat@, o as int),
{
    let m = pat.unicode_len();
    let mut k: usize = 0;
    while k < m
        invariant
            m == pat@.len(),
            o + m <= s@.len(),
            s@.len() <= usize::MAX,
            k <= m,
            forall|j: int| 0 <= j < k ==> spec_lower(s@[o + j]) == (#[trigger] pat@[j]),
        decreases m - k,
    {
        let sc = s.get_char(o + k);
        let pc = pat.get_char(k);
        if lower_char(sc) != pc {
            proof {
                assert(spec_lower(s@[o + k as int]) != pat@[k as int]);
            }
            return false;
        }
        k = k + 1;
    }
    true
}

/// Case-insensitive substring search.
pub fn contains_ci(s: &str, pat: &str) -> (r: bool)
    ensures
        r == spec_contains_ci(s@, pat@),
{
    let n = s.unicode_len();
    let m = pat.unicode_len();
    if m > n {
        proof {
            assert(!spec_contains_ci(s@, pat@));
        }
        return false;
    }
    let mut o: usize = 0;
    while o <= n - m
        invariant
            n == s@.len(),
            m == pat@.len(),
            m <= n,
            o <= n - m + 1,
            forall|q: int| 0 <= q < o ==> !spec_matches_at(s@, pat@, q),
        decreases n - m + 1 - o,
    {
        if matches_at(s, pat, o) {
            return true;
        }
        o = o + 1;
    }
    proof {
        assert forall|q: int| 0 <= q <= s@.len() - pat@.len() implies !spec_matches_at(
            s@,
            pat@,
            q,
        ) by {
            assert(q < o);
        }
    }
    false
}

/// The class a weapon display name belongs to, by its best-known
/// substrings, checked in a fixed order.
pub open spec fn spec_weapon_of(name: Seq<char>) -> WeaponType {
    if spec_contains_ci(name, "ak47"@) || spec_contains_ci(name, "m4a4"@) || spec_contains_ci(
        name,
        "m4a1"@,
    ) {
        WeaponType::Rifle
    } else if spec_contains_ci(name, "awp"@) || spec_contains_ci(name, "ssg08"@) {
        WeaponType::Sniper
    } else if spec_contains_ci(name, "glock"@) || spec_contains_ci(name, "usp"@)
        || spec_contains_ci(name, "p250"@) {
        WeaponType::Pistol
    } else if spec_contains_ci(name, "mp5"@) || spec_contains_ci(name, "p90"@)
        || spec_contains_ci(name, "ump"@) {
        WeaponType::SMG
    } else if spec_contains_ci(name, "nova"@) || spec_contains_ci(name, "xm1014"@) {
        WeaponType::Shotgun
    } else {
        WeaponType::Unknown
    }
}

impl WeaponType {
    /// Classifies a weapon display name.
    pub fn from_weapon_name(name: &str) -> (r: WeaponType)
        ensures
            r == spec_weapon_of(name@),
    {
        if contains_ci(name, "ak47") || contains_ci(name, "m4a4") || contains_ci(name, "m4a1") {
            WeaponType::Rifle
        } else if contains_ci(name, "awp") || contains_ci(name, "ssg08") {
            WeaponType::Sniper
        } else if contains_ci(name, "glock") || contains_ci(name, "usp") || contains_ci(
            name,
            "p250",
        ) {
            WeaponType::Pistol
        } else if contains_ci(name, "mp5") || contains_ci(name, "p90") || contains_ci(
            name,
            "ump",
        ) {
            WeaponType::SMG
        } else if contains_ci(name, "nova") || contains_ci(name, "xm1014") {
            WeaponType::Shotgun
        } else {
            WeaponType::Unknown
        }
    }

    /// The class's typical projectile speed, in milli-units per second.
    pub fn projectile_speed(&self) -> (r: u64)
        ensures
            r == self.spec_projectile_speed(),
            1_000_000 <= r <= 3_500_000,
    {
        match self {
            WeaponType::Rifle => 2_700_000,
            WeaponType::Pistol => 1_800_000,
            WeaponType::Sniper => 3_500_000,
            WeaponType::SMG => 2_200_000,
            WeaponType::Shotgun => 1_200_000,
            WeaponType::Unknown => 2_500_000,
        }
    }

    pub open spec fn spec_projectile_speed(&self) -> u64 {
        match self {
            WeaponType::Rifle => 2_700_000,
            WeaponType::Pistol => 1_800_000,
            WeaponType::Sniper => 3_500_000,
            WeaponType::SMG => 2_200_000,
            WeaponType::Shotgun => 1_200_000,
            WeaponType::Unknown => 2_500_000,
        }
    }
}

/// Equality of two string slices, character by character.
pub fn str_eq(a: &str, b: &str) -> (r: bool)
    ensures
        r == (a@ == b@),
{
    let n = a.unicode_len();
    let m = b.unicode_len();
    if n != m {
        proof {
            assert(a@ != b@);
        }
        return false;
    }
    let mut i: usize = 0;
    while i < n
        invariant
            n == a@.len(),
            n == b@.len(),
            i <= n,
            forall|k: int| 0 <= k < i ==> a@[k] == b@[k],
        decreases n - i,
    {
        if a.get_char(i) != b.get_char(i) {
            return false;
        }
        i = i + 1;
    }
    proof {
        assert(a@ =~= b@);
    }
    true
}

/// Projectile travel time over a distance plus one frame of buffer.
pub open spec fn spec_prediction_time_ms(distance_milli: int, speed_milli: int) -> int {
    spec_div_trunc(distance_milli * 1000, speed_milli) + 16
}

/// How far ahead to extrapolate a target for a weapon class: the
/// projectile's travel time plus one 60 Hz frame of buffer.
pub fn calculate_optimal_prediction_time(distance_milli: u64, weapon_type: WeaponType) -> (r:
    u64)
    requires
        distance_milli <= 8_000_000_000,
    ensures
        r == spec_prediction_time_ms(
            distance_milli as int,
            weapon_type.spec_projectile_speed() as int,
        ),
        16 <= r <= 8_000_016,
    {
    let speed = weapon_type.projectile_speed();
    let travel = distance_milli * 1000 / speed;
    proof {
        assert(distance_milli * 1000 / (speed as int) <= 8_000_000_000) by (nonlinear_arith)
            requires
                0 <= distance_milli * 1000 <= 8_000_000_000_000,
                speed >= 1_000_000,
        {}
        assert(spec_div_trunc(distance_milli * 1000, speed as int) == distance_milli * 1000 / (
        speed as int));
    }
    travel + 16
}

} // verus!
