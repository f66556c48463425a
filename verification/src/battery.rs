use vstd::prelude::*;
use crate::text::{
    chars_of, decimal, eq_ignore_ascii_case, eq_ignore_ascii_case_in, parse_u32, parse_u32_in,
    push_char, push_decimal, trim_bounds, trimmed,
};

verus! {

/// What was read from one entry of the power-supply directory, in directory
/// order: the text of its `capacity` file and of its `status` file, `None`
/// where the file could not be read.
pub struct SupplyReading {
    pub capacity: Option<String>,
    pub status: Option<String>,
}

/// Glyph shown when no supply reports a usable charge level.
pub open spec fn unknown_glyph() -> char {
    '\u{f0083}'
}

/// Glyph shown while the battery is charging.
pub open spec fn charging_glyph() -> char {
    '\u{f0084}'
}

/// Glyph shown for a full battery (and for any level above ninety).
pub open spec fn full_glyph() -> char {
    '\u{f0079}'
}

/// The glyph for a charge level: one per band of ten percent.
pub open spec fn level_glyph(value: u32) -> char {
    if value <= 10 {
        '\u{f007a}'
    } else if value <= 20 {
        '\u{f007b}'
    } else if value <= 30 {
        '\u{f007c}'
    } else if value <= 40 {
        '\u{f007d}'
    } else if value <= 50 {
        '\u{f007e}'
    } else if value <= 60 {
        '\u{f007f}'
    } else if value <= 70 {
        '\u{f0080}'
    } else if value <= 80 {
        '\u{f0081}'
    } else if value <= 90 {
        '\u{f0082}'
    } else {
        full_glyph()
    }
}

/// The charge level a supply reports: its `capacity` text, trimmed, read as
/// a `u32`.
pub open spec fn reported_capacity(r: SupplyReading) -> Option<u32> {
    match r.capacity {
        Some(c) => parse_u32(trimmed(c@)),
        None => None,
    }
}

/// The first supply, in directory order, that reports a charge level.
pub open spec fn first_battery(s: Seq<SupplyReading>) -> Option<SupplyReading>
    decreases s.len(),
{
    if s.len() == 0 {
        None
    } else if reported_capacity(s[0]) is Some {
        Some(s[0])
    } else {
        first_battery(s.drop_first())
    }
}

/// The percentage text: the first battery's level followed by `%`, or `--`.
pub open spec fn percentage_text(s: Seq<SupplyReading>) -> Seq<char> {
    match first_battery(s) {
        Some(r) => decimal(reported_capacity(r)->0 as nat).push('%'),
        None => "--"@,
    }
}

/// The glyph a battery shows given its level and the text of its status.
pub open spec fn status_glyph(value: u32, status: Option<String>) -> char {
    match status {
        Some(st) => if eq_ignore_ascii_case(trimmed(st@), "charging"@) {
            charging_glyph()
        } else if eq_ignore_ascii_case(trimmed(st@), "full"@) {
            full_glyph()
        } else {
            level_glyph(value)
        },
        None => level_glyph(value),
    }
}

/// The battery glyph for a list of supplies.
pub open spec fn icon_glyph(s: Seq<SupplyReading>) -> char {
    match first_battery(s) {
        Some(r) => status_glyph(reported_capacity(r)->0, r.status),
        None => unknown_glyph(),
    }
}

/// The trimmed text of `t`, read as a `u32`.
fn read_level(t: &String) -> (v: Option<u32>)
    ensures
        v == parse_u32(trimmed(t@)),
{
    let cs = chars_of(t.as_str());
    let (a, b) = trim_bounds(&cs, 0, cs.len());
    assert(cs@.subrange(0, cs@.len() as int) =~= cs@);
    parse_u32_in(&cs, a, b)
}

/// Whether the trimmed text of `t` equals `word`, ASCII case ignored.
fn trimmed_is(t: &String, word: &str) -> (b: bool)
    ensures
        b == eq_ignore_ascii_case(trimmed(t@), word@),
{
    let cs = chars_of(t.as_str());
    let (a, b) = trim_bounds(&cs, 0, cs.len());
    assert(cs@.subrange(0, cs@.len() as int) =~= cs@);
    eq_ignore_ascii_case_in(&cs, a, b, word)
}

/// The charge level a supply reports.
pub fn capacity_of(r: &SupplyReading) -> (v: Option<u32>)
    ensures
        v == reported_capacity(*r),
{
    match &r.capacity {
        Some(c) => read_level(c),
        None => None,
    }
}

/// The position of the first supply that reports a charge level, with that
/// level.
pub fn find_battery(supplies: &Vec<SupplyReading>) -> (r: Option<(usize, u32)>)
    ensures
        match r {
            Some((i, v)) => {
                &&& i < supplies.len()
                &&& first_battery(supplies@) == Some(supplies@[i as int])
                &&& reported_capacity(supplies@[i as int]) == Some(v)
            },
            None => first_battery(supplies@) is None,
        },
{
    let mut i: usize = 0;
    assert(supplies@.skip(0) =~= supplies@);
    while i < supplies.len()
        invariant
            i <= supplies.len(),
            first_battery(supplies@) == first_battery(supplies@.skip(i as int)),
        decreases supplies.len() - i,
    {
        assert(supplies@.skip(i as int)[0] == supplies@[i as int]);
        match capacity_of(&supplies[i]) {
            Some(v) => {
                return Some((i, v));
            },
            None => {
                assert(supplies@.skip(i as int).drop_first() =~= supplies@.skip(i + 1));
            },
        }
        i = i + 1;
    }
    None
}

/// The battery glyph for a charge level.
pub fn battery_icon(value: u32) -> (t: String)
    ensures
        t@ == seq![level_glyph(value)],
{
    let glyph = if value <= 10 {
        '\u{f007a}'
    } else if value <= 20 {
        '\u{f007b}'
    } else if value <= 30 {
        '\u{f007c}'
    } else if value <= 40 {
        '\u{f007d}'
    } else if value <= 50 {
        '\u{f007e}'
    } else if value <= 60 {
        '\u{f007f}'
    } else if value <= 70 {
        '\u{f0080}'
    } else if value <= 80 {
        '\u{f0081}'
    } else if value <= 90 {
        '\u{f0082}'
    } else {
        '\u{f0079}'
    };
    let mut t = String::new();
    push_char(&mut t, glyph);
    t
}

/// The charge text: the level of the first supply that reports one,
/// followed by `%`, or `--` when none does.
pub fn percentage(supplies: &Vec<SupplyReading>) -> (t: String)
    ensures
        t@ == percentage_text(supplies@),
{
    match find_battery(supplies) {
        Some((_, v)) => {
            let mut t = String::new();
            push_decimal(&mut t, v);
            push_char(&mut t, '%');
            t
        },
        None => String::from_str("--"),
    }
}

/// The battery glyph: for the first supply that reports a level, the
/// charging glyph when its status says `charging`, the full glyph when it
/// says `full`, else the glyph of its level; the unknown glyph when no
/// supply reports a level.
pub fn icon(supplies: &Vec<SupplyReading>) -> (t: String)
    ensures
        t@ == seq![icon_glyph(supplies@)],
{
    match find_battery(supplies) {
        Some((i, v)) => match &supplies[i].status {
            Some(st) => {
                if trimmed_is(st, "charging") {
                    let mut t = String::new();
                    push_char(&mut t, '\u{f0084}');
                    t
                } else if trimmed_is(st, "full") {
                    let mut t = String::new();
                    push_char(&mut t, '\u{f0079}');
                    t
                } else {
                    battery_icon(v)
                }
            },
            None => battery_icon(v),
        },
        None => {
            let mut t = String::new();
            push_char(&mut t, '\u{f0083}');
            t
        },
    }
}

/// The two readouts agree on whether there is a battery at all: the charge
/// text is `--` exactly when the glyph is the unknown-battery glyph.
pub proof fn lemma_readouts_agree(supplies: Seq<SupplyReading>)
    ensures
        (percentage_text(supplies) == "--"@) <==> (icon_glyph(supplies) == unknown_glyph()),
{
    reveal_strlit("--");
    if first_battery(supplies) is Some {
        let t = percentage_text(supplies);
        assert(t.last() == '%');
        assert(t != "--"@);
    }
}

/// The supply at `i` is the first to report a level when none before it does.
proof fn lemma_first_battery_at(s: Seq<SupplyReading>, i: int)
    requires
        0 <= i < s.len(),
        forall|j: int| 0 <= j < i ==> reported_capacity(#[trigger] s[j]) is None,
        reported_capacity(s[i]) is Some,
    ensures
        first_battery(s) == Some(s[i]),
    decreases i,
{
    if i > 0 {
        let t = s.drop_first();
        assert forall|j: int| 0 <= j < i - 1 implies reported_capacity(#[trigger] t[j]) is None by {
            assert(t[j] == s[j + 1]);
        }
        assert(t[i - 1] == s[i]);
        assert(reported_capacity(s[0]) is None);
        lemma_first_battery_at(t, i - 1);
    }
}

/// No supply reports a level: nothing before position `n` does.
proof fn lemma_no_battery(s: Seq<SupplyReading>)
    requires
        forall|j: int| 0 <= j < s.len() ==> reported_capacity(#[trigger] s[j]) is None,
    ensures
        first_battery(s) is None,
    decreases s.len(),
{
    if s.len() > 0 {
        let t = s.drop_first();
        assert forall|j: int| 0 <= j < t.len() implies reported_capacity(#[trigger] t[j]) is None by {
            assert(t[j] == s[j + 1]);
        }
        assert(reported_capacity(s[0]) is None);
        lemma_no_battery(t);
    }
}

/// The readouts come from the first supply, in directory order, whose
/// trimmed `capacity` text reads as a `u32` `level`: the charge text is that
/// level followed by `%`; the glyph is the charging glyph when its trimmed
/// status is `charging` (ASCII case ignored), the full glyph when it is
/// `full`, whatever the level, and otherwise the glyph of the level.
pub proof fn lemma_readouts_of_first_battery(s: Seq<SupplyReading>, i: int, level: u32)
    requires
        0 <= i < s.len(),
        forall|j: int| 0 <= j < i ==> reported_capacity(#[trigger] s[j]) is None,
        s[i].capacity matches Some(c) && parse_u32(trimmed(c@)) == Some(level),
    ensures
        percentage_text(s) == decimal(level as nat).push('%'),
        s[i].status is None ==> icon_glyph(s) == level_glyph(level),
        (s[i].status matches Some(st) && eq_ignore_ascii_case(trimmed(st@), "charging"@))
            ==> icon_glyph(s) == '\u{f0084}',
        (s[i].status matches Some(st) && eq_ignore_ascii_case(trimmed(st@), "full"@))
            ==> icon_glyph(s) == '\u{f0079}',
        (s[i].status matches Some(st) && !eq_ignore_ascii_case(trimmed(st@), "charging"@)
            && !eq_ignore_ascii_case(trimmed(st@), "full"@)) ==> icon_glyph(s) == level_glyph(
            level,
        ),
{
    lemma_first_battery_at(s, i);
    reveal_strlit("charging");
    reveal_strlit("full");
}

/// When no supply's trimmed `capacity` text reads as a `u32`, the charge
/// text is `--` and the glyph is the unknown-battery glyph.
pub proof fn lemma_readouts_without_battery(s: Seq<SupplyReading>)
    requires
        forall|j: int|
            0 <= j < s.len() ==> match #[trigger] s[j].capacity {
                Some(c) => parse_u32(trimmed(c@)) is None,
                None => true,
            },
    ensures
        percentage_text(s) == "--"@,
        icon_glyph(s) == '\u{f0083}',
{
    assert forall|j: int| 0 <= j < s.len() implies reported_capacity(#[trigger] s[j]) is None by {
        let _ = s[j].capacity;
    }
    lemma_no_battery(s);
}

/// One glyph per band of ten percent: levels 0 to 10 show the first level
/// glyph, each further band of ten (11 to 20, 21 to 30, ... 81 to 90) the
/// next code point, and anything above 90 the full glyph.
pub proof fn lemma_level_bands(value: u32)
    ensures
        value <= 10 ==> level_glyph(value) == '\u{f007a}',
        1 <= value <= 90 ==> level_glyph(value) as u32 == 0xf007a + (value - 1) / 10,
        value > 90 ==> level_glyph(value) == '\u{f0079}',
{
}

} // verus!
