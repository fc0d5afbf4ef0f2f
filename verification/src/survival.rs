//! Which recorded entity names are threats.
//!
//! Entity names arrive from the adapter as the debug name of the protocol entity kind
//! (`ZombifiedPiglin`), while fixtures and hand-written observations may use the snake_case
//! form (`zombified_piglin`), so matching normalises case and separators. Projectiles,
//! players, passive and neutral mobs are not threats.
use crate::text::{chars_of, is_ascii_alphanumeric, spec_ascii_lower, spec_is_ascii_alphanumeric};
use vstd::prelude::*;

verus! {

/// Upper bound on flight candidates offered in one request.
pub const MAX_FLEE_CANDIDATES: usize = 3;

/// Minimum gap between two reflex actions, so one persistent threat cannot chain bounded
/// goals into continuous running.
pub const REFLEX_COOLDOWN_MS: u64 = 1_500;

/// Hostile entity kinds in the protocol spelling.
pub open spec fn hostile_kinds() -> Seq<Seq<char>> {
    seq![
        "blaze"@,
        "bogged"@,
        "breeze"@,
        "cave_spider"@,
        "creeper"@,
        "drowned"@,
        "elder_guardian"@,
        "enderman"@,
        "endermite"@,
        "ender_dragon"@,
        "evoker"@,
        "ghast"@,
        "guardian"@,
        "hoglin"@,
        "husk"@,
        "illusioner"@,
        "magma_cube"@,
        "phantom"@,
        "piglin"@,
        "piglin_brute"@,
        "pillager"@,
        "ravager"@,
        "shulker"@,
        "silverfish"@,
        "skeleton"@,
        "slime"@,
        "spider"@,
        "stray"@,
        "vex"@,
        "vindicator"@,
        "warden"@,
        "witch"@,
        "wither"@,
        "wither_skeleton"@,
        "zoglin"@,
        "zombie"@,
        "zombie_villager"@,
        "zombified_piglin"@,
    ]
}

/// Hostile kinds that shoot: they threaten the bot from beyond melee reach.
pub open spec fn ranged_kinds() -> Seq<Seq<char>> {
    seq!["skeleton"@, "stray"@, "bogged"@, "pillager"@]
}

fn hostile_kind_names() -> (v: Vec<&'static str>)
    ensures
        v@.len() == hostile_kinds().len(),
        forall|i: int| 0 <= i < v@.len() ==> (#[trigger] v@[i])@ == hostile_kinds()[i],
{
    vec![
        "blaze",
        "bogged",
        "breeze",
        "cave_spider",
        "creeper",
        "drowned",
        "elder_guardian",
        "enderman",
        "endermite",
        "ender_dragon",
        "evoker",
        "ghast",
        "guardian",
        "hoglin",
        "husk",
        "illusioner",
        "magma_cube",
        "phantom",
        "piglin",
        "piglin_brute",
        "pillager",
        "ravager",
        "shulker",
        "silverfish",
        "skeleton",
        "slime",
        "spider",
        "stray",
        "vex",
        "vindicator",
        "warden",
        "witch",
        "wither",
        "wither_skeleton",
        "zoglin",
        "zombie",
        "zombie_villager",
        "zombified_piglin",
    ]
}

fn ranged_kind_names() -> (v: Vec<&'static str>)
    ensures
        v@.len() == ranged_kinds().len(),
        forall|i: int| 0 <= i < v@.len() ==> (#[trigger] v@[i])@ == ranged_kinds()[i],
{
    vec!["skeleton", "stray", "bogged", "pillager"]
}

/// The ASCII letters and digits of `s`, lower-cased, in order.
pub open spec fn spec_normalize(s: Seq<char>) -> Seq<char>
    decreases s.len(),
{
    if s.len() == 0 {
        Seq::empty()
    } else {
        let rest = spec_normalize(s.drop_last());
        if spec_is_ascii_alphanumeric(s.last()) {
            rest.push(spec_ascii_lower(s.last()))
        } else {
            rest
        }
    }
}

fn ascii_lower(c: char) -> (r: char)
    requires
        spec_is_ascii_alphanumeric(c),
    ensures
        r == spec_ascii_lower(c),
{
    if 'A' <= c && c <= 'Z' {
        ((c as u8) + 32) as char
    } else {
        c
    }
}

/// The ASCII letters and digits of `name`, lower-cased.
pub fn normalize(name: &str) -> (r: Vec<char>)
    ensures
        r@ == spec_normalize(name@),
{
    let v = chars_of(name);
    let mut out: Vec<char> = Vec::new();
    let mut i: usize = 0;
    while i < v.len()
        invariant
            v@ == name@,
            i <= v@.len(),
            out@ == spec_normalize(v@.take(i as int)),
        decreases v@.len() - i,
    {
        proof {
            assert(v@.take(i + 1).drop_last() =~= v@.take(i as int));
        }
        let c = v[i];
        if is_ascii_alphanumeric(c) {
            out.push(ascii_lower(c));
        }
        i += 1;
    }
    proof {
        assert(v@.take(v@.len() as int) =~= v@);
    }
    out
}

/// Whether the normalised name equals the normalised spelling of one of `kinds`.
pub open spec fn names_one_of(name: Seq<char>, kinds: Seq<Seq<char>>) -> bool {
    let normalized = spec_normalize(name);
    normalized.len() > 0 && exists|k: int|
        0 <= k < kinds.len() && #[trigger] spec_normalize(kinds[k]) == normalized
}

pub open spec fn spec_is_hostile(name: Seq<char>) -> bool {
    names_one_of(name, hostile_kinds())
}

pub open spec fn spec_is_ranged(name: Seq<char>) -> bool {
    names_one_of(name, ranged_kinds())
}

fn matches_one_of(name: &str, kinds: &Vec<&'static str>, Ghost(spec_kinds): Ghost<Seq<Seq<char>>>) -> (r: bool)
    requires
        kinds@.len() == spec_kinds.len(),
        forall|i: int| 0 <= i < kinds@.len() ==> (#[trigger] kinds@[i])@ == spec_kinds[i],
    ensures
        r == names_one_of(name@, spec_kinds),
{
    let normalized = normalize(name);
    if normalized.len() == 0 {
        return false;
    }
    let mut k: usize = 0;
    while k < kinds.len()
        invariant
            kinds@.len() == spec_kinds.len(),
            forall|i: int| 0 <= i < kinds@.len() ==> (#[trigger] kinds@[i])@ == spec_kinds[i],
            normalized@ == spec_normalize(name@),
            normalized@.len() > 0,
            k <= kinds@.len(),
            forall|j: int| 0 <= j < k ==> #[trigger] spec_normalize(spec_kinds[j]) != normalized@,
        decreases kinds@.len() - k,
    {
        let candidate = normalize(kinds[k]);
        assert(kinds@[k as int]@ == spec_kinds[k as int]);
        if same_chars(&candidate, &normalized) {
            assert(spec_normalize(spec_kinds[k as int]) == normalized@);
            assert(normalized@.len() > 0);
            return true;
        }
        k += 1;
    }
    false
}

fn same_chars(a: &Vec<char>, b: &Vec<char>) -> (r: bool)
    ensures
        r == (a@ == b@),
{
    if a.len() != b.len() {
        return false;
    }
    let mut i: usize = 0;
    while i < a.len()
        invariant
            a@.len() == b@.len(),
            i <= a@.len(),
            forall|j: int| 0 <= j < i ==> a@[j] == b@[j],
        decreases a@.len() - i,
    {
        if a[i] != b[i] {
            return false;
        }
        i += 1;
    }
    assert(a@ =~= b@);
    true
}

/// Whether a recorded entity name is a hostile mob the bot should move away from.
pub fn is_hostile(name: &str) -> (r: bool)
    ensures
        r == spec_is_hostile(name@),
{
    let kinds = hostile_kind_names();
    matches_one_of(name, &kinds, Ghost(hostile_kinds()))
}

/// Whether a recorded entity name is a hostile shooter, a threat out to its own range.
pub fn is_ranged(name: &str) -> (r: bool)
    ensures
        r == spec_is_ranged(name@),
{
    let kinds = ranged_kind_names();
    matches_one_of(name, &kinds, Ghost(ranged_kinds()))
}

/// Every shooter is hostile.
pub proof fn law_ranged_kinds_are_hostile(name: Seq<char>)
    requires
        spec_is_ranged(name),
    ensures
        spec_is_hostile(name),
{
    let k = choose|k: int|
        0 <= k < ranged_kinds().len() && #[trigger] spec_normalize(ranged_kinds()[k])
            == spec_normalize(name);
    let j = if k == 0 {
        24int
    } else if k == 1 {
        27int
    } else if k == 2 {
        1int
    } else {
        20int
    };
    assert(hostile_kinds()[j] == ranged_kinds()[k]);
    assert(spec_normalize(hostile_kinds()[j]) == spec_normalize(name));
}

proof fn lemma_normalize_keeps_a_leading_letter(s: Seq<char>)
    requires
        s.len() > 0,
        spec_is_ascii_alphanumeric(s[0]),
    ensures
        spec_normalize(s).len() > 0,
    decreases s.len(),
{
    if s.len() > 1 && !spec_is_ascii_alphanumeric(s.last()) {
        assert(s.drop_last()[0] == s[0]);
        lemma_normalize_keeps_a_leading_letter(s.drop_last());
    }
}

/// A name that spells one of this fixed list of hostile mobs, in any case and with any
/// separators (`creeper`, `Creeper`, `ZombifiedPiglin`, `zombified_piglin`), is hostile.
pub proof fn law_listed_mobs_are_hostile(name: Seq<char>)
    ensures
        spec_normalize(name) == spec_normalize("blaze"@) ==> spec_is_hostile(name),
        spec_normalize(name) == spec_normalize("bogged"@) ==> spec_is_hostile(name),
        spec_normalize(name) == spec_normalize("breeze"@) ==> spec_is_hostile(name),
        spec_normalize(name) == spec_normalize("cave_spider"@) ==> spec_is_hostile(name),
        spec_normalize(name) == spec_normalize("creeper"@) ==> spec_is_hostile(name),
        spec_normalize(name) == spec_normalize("drowned"@) ==> spec_is_hostile(name),
        spec_normalize(name) == spec_normalize("elder_guardian"@) ==> spec_is_hostile(name),
        spec_normalize(name) == spec_normalize("enderman"@) ==> spec_is_hostile(name),
        spec_normalize(name) == spec_normalize("endermite"@) ==> spec_is_hostile(name),
        spec_normalize(name) == spec_normalize("ender_dragon"@) ==> spec_is_hostile(name),
        spec_normalize(name) == spec_normalize("evoker"@) ==> spec_is_hostile(name),
        spec_normalize(name) == spec_normalize("ghast"@) ==> spec_is_hostile(name),
        spec_normalize(name) == spec_normalize("guardian"@) ==> spec_is_hostile(name),
        spec_normalize(name) == spec_normalize("hoglin"@) ==> spec_is_hostile(name),
        spec_normalize(name) == spec_normalize("husk"@) ==> spec_is_hostile(name),
        spec_normalize(name) == spec_normalize("illusioner"@) ==> spec_is_hostile(name),
        spec_normalize(name) == spec_normalize("magma_cube"@) ==> spec_is_hostile(name),
        spec_normalize(name) == spec_normalize("phantom"@) ==> spec_is_hostile(name),
        spec_normalize(name) == spec_normalize("piglin"@) ==> spec_is_hostile(name),
        spec_normalize(name) == spec_normalize("piglin_brute"@) ==> spec_is_hostile(name),
        spec_normalize(name) == spec_normalize("pillager"@) ==> spec_is_hostile(name),
        spec_normalize(name) == spec_normalize("ravager"@) ==> spec_is_hostile(name),
        spec_normalize(name) == spec_normalize("shulker"@) ==> spec_is_hostile(name),
        spec_normalize(name) == spec_normalize("silverfish"@) ==> spec_is_hostile(name),
        spec_normalize(name) == spec_normalize("skeleton"@) ==> spec_is_hostile(name),
        spec_normalize(name) == spec_normalize("slime"@) ==> spec_is_hostile(name),
        spec_normalize(name) == spec_normalize("spider"@) ==> spec_is_hostile(name),
        spec_normalize(name) == spec_normalize("stray"@) ==> spec_is_hostile(name),
        spec_normalize(name) == spec_normalize("vex"@) ==> spec_is_hostile(name),
        spec_normalize(name) == spec_normalize("vindicator"@) ==> spec_is_hostile(name),
        spec_normalize(name) == spec_normalize("warden"@) ==> spec_is_hostile(name),
        spec_normalize(name) == spec_normalize("witch"@) ==> spec_is_hostile(name),
        spec_normalize(name) == spec_normalize("wither"@) ==> spec_is_hostile(name),
        spec_normalize(name) == spec_normalize("wither_skeleton"@) ==> spec_is_hostile(name),
        spec_normalize(name) == spec_normalize("zoglin"@) ==> spec_is_hostile(name),
        spec_normalize(name) == spec_normalize("zombie"@) ==> spec_is_hostile(name),
        spec_normalize(name) == spec_normalize("zombie_villager"@) ==> spec_is_hostile(name),
        spec_normalize(name) == spec_normalize("zombified_piglin"@) ==> spec_is_hostile(name),
{
    if spec_normalize(name) == spec_normalize("blaze"@) {
        reveal_strlit("blaze");
        assert(hostile_kinds()[0] == "blaze"@);
        lemma_normalize_keeps_a_leading_letter("blaze"@);
        assert(spec_normalize(hostile_kinds()[0]) == spec_normalize(name));
    }
    if spec_normalize(name) == spec_normalize("bogged"@) {
        reveal_strlit("bogged");
        assert(hostile_kinds()[1] == "bogged"@);
        lemma_normalize_keeps_a_leading_letter("bogged"@);
        assert(spec_normalize(hostile_kinds()[1]) == spec_normalize(name));
    }
    if spec_normalize(name) == spec_normalize("breeze"@) {
        reveal_strlit("breeze");
        assert(hostile_kinds()[2] == "breeze"@);
        lemma_normalize_keeps_a_leading_letter("breeze"@);
        assert(spec_normalize(hostile_kinds()[2]) == spec_normalize(name));
    }
    if spec_normalize(name) == spec_normalize("cave_spider"@) {
        reveal_strlit("cave_spider");
        assert(hostile_kinds()[3] == "cave_spider"@);
        lemma_normalize_keeps_a_leading_letter("cave_spider"@);
        assert(spec_normalize(hostile_kinds()[3]) == spec_normalize(name));
    }
    if spec_normalize(name) == spec_normalize("creeper"@) {
        reveal_strlit("creeper");
        assert(hostile_kinds()[4] == "creeper"@);
        lemma_normalize_keeps_a_leading_letter("creeper"@);
        assert(spec_normalize(hostile_kinds()[4]) == spec_normalize(name));
    }
    if spec_normalize(name) == spec_normalize("drowned"@) {
        reveal_strlit("drowned");
        assert(hostile_kinds()[5] == "drowned"@);
        lemma_normalize_keeps_a_leading_letter("drowned"@);
        assert(spec_normalize(hostile_kinds()[5]) == spec_normalize(name));
    }
    if spec_normalize(name) == spec_normalize("elder_guardian"@) {
        reveal_strlit("elder_guardian");
        assert(hostile_kinds()[6] == "elder_guardian"@);
        lemma_normalize_keeps_a_leading_letter("elder_guardian"@);
        assert(spec_normalize(hostile_kinds()[6]) == spec_normalize(name));
    }
    if spec_normalize(name) == spec_normalize("enderman"@) {
        reveal_strlit("enderman");
        assert(hostile_kinds()[7] == "enderman"@);
        lemma_normalize_keeps_a_leading_letter("enderman"@);
        assert(spec_normalize(hostile_kinds()[7]) == spec_normalize(name));
    }
    if spec_normalize(name) == spec_normalize("endermite"@) {
        reveal_strlit("endermite");
        assert(hostile_kinds()[8] == "endermite"@);
        lemma_normalize_keeps_a_leading_letter("endermite"@);
        assert(spec_normalize(hostile_kinds()[8]) == spec_normalize(name));
    }
    if spec_normalize(name) == spec_normalize("ender_dragon"@) {
        reveal_strlit("ender_dragon");
        assert(hostile_kinds()[9] == "ender_dragon"@);
        lemma_normalize_keeps_a_leading_letter("ender_dragon"@);
        assert(spec_normalize(hostile_kinds()[9]) == spec_normalize(name));
    }
    if spec_normalize(name) == spec_normalize("evoker"@) {
        reveal_strlit("evoker");
        assert(hostile_kinds()[10] == "evoker"@);
        lemma_normalize_keeps_a_leading_letter("evoker"@);
        assert(spec_normalize(hostile_kinds()[10]) == spec_normalize(name));
    }
    if spec_normalize(name) == spec_normalize("ghast"@) {
        reveal_strlit("ghast");
        assert(hostile_kinds()[11] == "ghast"@);
        lemma_normalize_keeps_a_leading_letter("ghast"@);
        assert(spec_normalize(hostile_kinds()[11]) == spec_normalize(name));
    }
    if spec_normalize(name) == spec_normalize("guardian"@) {
        reveal_strlit("guardian");
        assert(hostile_kinds()[12] == "guardian"@);
        lemma_normalize_keeps_a_leading_letter("guardian"@);
        assert(spec_normalize(hostile_kinds()[12]) == spec_normalize(name));
    }
    if spec_normalize(name) == spec_normalize("hoglin"@) {
        reveal_strlit("hoglin");
        assert(hostile_kinds()[13] == "hoglin"@);
        lemma_normalize_keeps_a_leading_letter("hoglin"@);
        assert(spec_normalize(hostile_kinds()[13]) == spec_normalize(name));
    }
    if spec_normalize(name) == spec_normalize("husk"@) {
        reveal_strlit("husk");
        assert(hostile_kinds()[14] == "husk"@);
        lemma_normalize_keeps_a_leading_letter("husk"@);
        assert(spec_normalize(hostile_kinds()[14]) == spec_normalize(name));
    }
    if spec_normalize(name) == spec_normalize("illusioner"@) {
        reveal_strlit("illusioner");
        assert(hostile_kinds()[15] == "illusioner"@);
        lemma_normalize_keeps_a_leading_letter("illusioner"@);
        assert(spec_normalize(hostile_kinds()[15]) == spec_normalize(name));
    }
    if spec_normalize(name) == spec_normalize("magma_cube"@) {
        reveal_strlit("magma_cube");
        assert(hostile_kinds()[16] == "magma_cube"@);
        lemma_normalize_keeps_a_leading_letter("magma_cube"@);
        assert(spec_normalize(hostile_kinds()[16]) == spec_normalize(name));
    }
    if spec_normalize(name) == spec_normalize("phantom"@) {
        reveal_strlit("phantom");
        assert(hostile_kinds()[17] == "phantom"@);
        lemma_normalize_keeps_a_leading_letter("phantom"@);
        assert(spec_normalize(hostile_kinds()[17]) == spec_normalize(name));
    }
    if spec_normalize(name) == spec_normalize("piglin"@) {
        reveal_strlit("piglin");
        assert(hostile_kinds()[18] == "piglin"@);
        lemma_normalize_keeps_a_leading_letter("piglin"@);
        assert(spec_normalize(hostile_kinds()[18]) == spec_normalize(name));
    }
    if spec_normalize(name) == spec_normalize("piglin_brute"@) {
        reveal_strlit("piglin_brute");
        assert(hostile_kinds()[19] == "piglin_brute"@);
        lemma_normalize_keeps_a_leading_letter("piglin_brute"@);
        assert(spec_normalize(hostile_kinds()[19]) == spec_normalize(name));
    }
    if spec_normalize(name) == spec_normalize("pillager"@) {
        reveal_strlit("pillager");
        assert(hostile_kinds()[20] == "pillager"@);
        lemma_normalize_keeps_a_leading_letter("pillager"@);
        assert(spec_normalize(hostile_kinds()[20]) == spec_normalize(name));
    }
    if spec_normalize(name) == spec_normalize("ravager"@) {
        reveal_strlit("ravager");
        assert(hostile_kinds()[21] == "ravager"@);
        lemma_normalize_keeps_a_leading_letter("ravager"@);
        assert(spec_normalize(hostile_kinds()[21]) == spec_normalize(name));
    }
    if spec_normalize(name) == spec_normalize("shulker"@) {
        reveal_strlit("shulker");
        assert(hostile_kinds()[22] == "shulker"@);
        lemma_normalize_keeps_a_leading_letter("shulker"@);
        assert(spec_normalize(hostile_kinds()[22]) == spec_normalize(name));
    }
    if spec_normalize(name) == spec_normalize("silverfish"@) {
        reveal_strlit("silverfish");
        assert(hostile_kinds()[23] == "silverfish"@);
        lemma_normalize_keeps_a_leading_letter("silverfish"@);
        assert(spec_normalize(hostile_kinds()[23]) == spec_normalize(name));
    }
    if spec_normalize(name) == spec_normalize("skeleton"@) {
        reveal_strlit("skeleton");
        assert(hostile_kinds()[24] == "skeleton"@);
        lemma_normalize_keeps_a_leading_letter("skeleton"@);
        assert(spec_normalize(hostile_kinds()[24]) == spec_normalize(name));
    }
    if spec_normalize(name) == spec_normalize("slime"@) {
        reveal_strlit("slime");
        assert(hostile_kinds()[25] == "slime"@);
        lemma_normalize_keeps_a_leading_letter("slime"@);
        assert(spec_normalize(hostile_kinds()[25]) == spec_normalize(name));
    }
    if spec_normalize(name) == spec_normalize("spider"@) {
        reveal_strlit("spider");
        assert(hostile_kinds()[26] == "spider"@);
        lemma_normalize_keeps_a_leading_letter("spider"@);
        assert(spec_normalize(hostile_kinds()[26]) == spec_normalize(name));
    }
    if spec_normalize(name) == spec_normalize("stray"@) {
        reveal_strlit("stray");
        assert(hostile_kinds()[27] == "stray"@);
        lemma_normalize_keeps_a_leading_letter("stray"@);
        assert(spec_normalize(hostile_kinds()[27]) == spec_normalize(name));
    }
    if spec_normalize(name) == spec_normalize("vex"@) {
        reveal_strlit("vex");
        assert(hostile_kinds()[28] == "vex"@);
        lemma_normalize_keeps_a_leading_letter("vex"@);
        assert(spec_normalize(hostile_kinds()[28]) == spec_normalize(name));
    }
    if spec_normalize(name) == spec_normalize("vindicator"@) {
        reveal_strlit("vindicator");
        assert(hostile_kinds()[29] == "vindicator"@);
        lemma_normalize_keeps_a_leading_letter("vindicator"@);
        assert(spec_normalize(hostile_kinds()[29]) == spec_normalize(name));
    }
    if spec_normalize(name) == spec_normalize("warden"@) {
        reveal_strlit("warden");
        assert(hostile_kinds()[30] == "warden"@);
        lemma_normalize_keeps_a_leading_letter("warden"@);
        assert(spec_normalize(hostile_kinds()[30]) == spec_normalize(name));
    }
    if spec_normalize(name) == spec_normalize("witch"@) {
        reveal_strlit("witch");
        assert(hostile_kinds()[31] == "witch"@);
        lemma_normalize_keeps_a_leading_letter("witch"@);
        assert(spec_normalize(hostile_kinds()[31]) == spec_normalize(name));
    }
    if spec_normalize(name) == spec_normalize("wither"@) {
        reveal_strlit("wither");
        assert(hostile_kinds()[32] == "wither"@);
        lemma_normalize_keeps_a_leading_letter("wither"@);
        assert(spec_normalize(hostile_kinds()[32]) == spec_normalize(name));
    }
    if spec_normalize(name) == spec_normalize("wither_skeleton"@) {
        reveal_strlit("wither_skeleton");
        assert(hostile_kinds()[33] == "wither_skeleton"@);
        lemma_normalize_keeps_a_leading_letter("wither_skeleton"@);
        assert(spec_normalize(hostile_kinds()[33]) == spec_normalize(name));
    }
    if spec_normalize(name) == spec_normalize("zoglin"@) {
        reveal_strlit("zoglin");
        assert(hostile_kinds()[34] == "zoglin"@);
        lemma_normalize_keeps_a_leading_letter("zoglin"@);
        assert(spec_normalize(hostile_kinds()[34]) == spec_normalize(name));
    }
    if spec_normalize(name) == spec_normalize("zombie"@) {
        reveal_strlit("zombie");
        assert(hostile_kinds()[35] == "zombie"@);
        lemma_normalize_keeps_a_leading_letter("zombie"@);
        assert(spec_normalize(hostile_kinds()[35]) == spec_normalize(name));
    }
    if spec_normalize(name) == spec_normalize("zombie_villager"@) {
        reveal_strlit("zombie_villager");
        assert(hostile_kinds()[36] == "zombie_villager"@);
        lemma_normalize_keeps_a_leading_letter("zombie_villager"@);
        assert(spec_normalize(hostile_kinds()[36]) == spec_normalize(name));
    }
    if spec_normalize(name) == spec_normalize("zombified_piglin"@) {
        reveal_strlit("zombified_piglin");
        assert(hostile_kinds()[37] == "zombified_piglin"@);
        lemma_normalize_keeps_a_leading_letter("zombified_piglin"@);
        assert(spec_normalize(hostile_kinds()[37]) == spec_normalize(name));
    }
}

/// Nothing else is hostile: a hostile name spells one of the listed mobs (passive and
/// neutral animals, players and projectiles never are).
pub proof fn law_only_listed_mobs_are_hostile(name: Seq<char>)
    requires
        spec_is_hostile(name),
    ensures
        spec_normalize(name) == spec_normalize("blaze"@)
            || spec_normalize(name) == spec_normalize("bogged"@)
            || spec_normalize(name) == spec_normalize("breeze"@)
            || spec_normalize(name) == spec_normalize("cave_spider"@)
            || spec_normalize(name) == spec_normalize("creeper"@)
            || spec_normalize(name) == spec_normalize("drowned"@)
            || spec_normalize(name) == spec_normalize("elder_guardian"@)
            || spec_normalize(name) == spec_normalize("enderman"@)
            || spec_normalize(name) == spec_normalize("endermite"@)
            || spec_normalize(name) == spec_normalize("ender_dragon"@)
            || spec_normalize(name) == spec_normalize("evoker"@)
            || spec_normalize(name) == spec_normalize("ghast"@)
            || spec_normalize(name) == spec_normalize("guardian"@)
            || spec_normalize(name) == spec_normalize("hoglin"@)
            || spec_normalize(name) == spec_normalize("husk"@)
            || spec_normalize(name) == spec_normalize("illusioner"@)
            || spec_normalize(name) == spec_normalize("magma_cube"@)
            || spec_normalize(name) == spec_normalize("phantom"@)
            || spec_normalize(name) == spec_normalize("piglin"@)
            || spec_normalize(name) == spec_normalize("piglin_brute"@)
            || spec_normalize(name) == spec_normalize("pillager"@)
            || spec_normalize(name) == spec_normalize("ravager"@)
            || spec_normalize(name) == spec_normalize("shulker"@)
            || spec_normalize(name) == spec_normalize("silverfish"@)
            || spec_normalize(name) == spec_normalize("skeleton"@)
            || spec_normalize(name) == spec_normalize("slime"@)
            || spec_normalize(name) == spec_normalize("spider"@)
            || spec_normalize(name) == spec_normalize("stray"@)
            || spec_normalize(name) == spec_normalize("vex"@)
            || spec_normalize(name) == spec_normalize("vindicator"@)
            || spec_normalize(name) == spec_normalize("warden"@)
            || spec_normalize(name) == spec_normalize("witch"@)
            || spec_normalize(name) == spec_normalize("wither"@)
            || spec_normalize(name) == spec_normalize("wither_skeleton"@)
            || spec_normalize(name) == spec_normalize("zoglin"@)
            || spec_normalize(name) == spec_normalize("zombie"@)
            || spec_normalize(name) == spec_normalize("zombie_villager"@)
            || spec_normalize(name) == spec_normalize("zombified_piglin"@),
{
    let k = choose|k: int|
        0 <= k < hostile_kinds().len() && #[trigger] spec_normalize(hostile_kinds()[k])
            == spec_normalize(name);
    if k == 0 {
        assert(hostile_kinds()[0] == "blaze"@);
    } else if k == 1 {
        assert(hostile_kinds()[1] == "bogged"@);
    } else if k == 2 {
        assert(hostile_kinds()[2] == "breeze"@);
    } else if k == 3 {
        assert(hostile_kinds()[3] == "cave_spider"@);
    } else if k == 4 {
        assert(hostile_kinds()[4] == "creeper"@);
    } else if k == 5 {
        assert(hostile_kinds()[5] == "drowned"@);
    } else if k == 6 {
        assert(hostile_kinds()[6] == "elder_guardian"@);
    } else if k == 7 {
        assert(hostile_kinds()[7] == "enderman"@);
    } else if k == 8 {
        assert(hostile_kinds()[8] == "endermite"@);
    } else if k == 9 {
        assert(hostile_kinds()[9] == "ender_dragon"@);
    } else if k == 10 {
        assert(hostile_kinds()[10] == "evoker"@);
    } else if k == 11 {
        assert(hostile_kinds()[11] == "ghast"@);
    } else if k == 12 {
        assert(hostile_kinds()[12] == "guardian"@);
    } else if k == 13 {
        assert(hostile_kinds()[13] == "hoglin"@);
    } else if k == 14 {
        assert(hostile_kinds()[14] == "husk"@);
    } else if k == 15 {
        assert(hostile_kinds()[15] == "illusioner"@);
    } else if k == 16 {
        assert(hostile_kinds()[16] == "magma_cube"@);
    } else if k == 17 {
        assert(hostile_kinds()[17] == "phantom"@);
    } else if k == 18 {
        assert(hostile_kinds()[18] == "piglin"@);
    } else if k == 19 {
        assert(hostile_kinds()[19] == "piglin_brute"@);
    } else if k == 20 {
        assert(hostile_kinds()[20] == "pillager"@);
    } else if k == 21 {
        assert(hostile_kinds()[21] == "ravager"@);
    } else if k == 22 {
        assert(hostile_kinds()[22] == "shulker"@);
    } else if k == 23 {
        assert(hostile_kinds()[23] == "silverfish"@);
    } else if k == 24 {
        assert(hostile_kinds()[24] == "skeleton"@);
    } else if k == 25 {
        assert(hostile_kinds()[25] == "slime"@);
    } else if k == 26 {
        assert(hostile_kinds()[26] == "spider"@);
    } else if k == 27 {
        assert(hostile_kinds()[27] == "stray"@);
    } else if k == 28 {
        assert(hostile_kinds()[28] == "vex"@);
    } else if k == 29 {
        assert(hostile_kinds()[29] == "vindicator"@);
    } else if k == 30 {
        assert(hostile_kinds()[30] == "warden"@);
    } else if k == 31 {
        assert(hostile_kinds()[31] == "witch"@);
    } else if k == 32 {
        assert(hostile_kinds()[32] == "wither"@);
    } else if k == 33 {
        assert(hostile_kinds()[33] == "wither_skeleton"@);
    } else if k == 34 {
        assert(hostile_kinds()[34] == "zoglin"@);
    } else if k == 35 {
        assert(hostile_kinds()[35] == "zombie"@);
    } else if k == 36 {
        assert(hostile_kinds()[36] == "zombie_villager"@);
    } else if k == 37 {
        assert(hostile_kinds()[37] == "zombified_piglin"@);
    }
}

} // verus!
