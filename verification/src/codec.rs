//! The flat text format of the configuration file: one `key: value` line per
//! field, each line closed by a newline, in a fixed order.
//!
//! The format is defined twice over: as spec functions that say what a text
//! means, and as verified executable functions that write and read it. The
//! round-trip law ties the two directions together.

use vstd::prelude::*;
use vstd::string::{StrSliceExecFns, StringExecFns};
use crate::config::{ConfigModel, ScheduleConfig, default_model, lemma_default_wf, valid_field_text};
use crate::digits::{
    all_digits, char_digit, dec_chars, digit_char, digits_val, format_u64, lemma_dec_chars_val,
    parse_u64, two_digits,
};
use crate::digits::digit_of;
use crate::theme::{ThemeModel, ThemePair};
use crate::time::TimeOfDay;

verus! {

/// Why a configuration text was rejected: not shaped as the expected record,
/// or a schedule time outside the clock.
#[derive(Clone, Copy, PartialEq, Eq, Structural, Debug)]
pub enum ConfigError {
    /// The text is not the expected sequence of `key: value` lines, or a
    /// field value is unusable.
    Malformed,
    /// A schedule boundary is not a valid `HH:MM` wall-clock time.
    BadTime,
}

/// The position of the first newline in `s`, if any.
pub open spec fn find_nl(s: Seq<char>) -> Option<int>
    decreases s.len(),
{
    if s.len() == 0 {
        None
    } else if s[0] == '\n' {
        Some(0int)
    } else {
        match find_nl(s.skip(1)) {
            None => None,
            Some(i) => Some(i + 1),
        }
    }
}

/// What `find_nl` returns: the first newline position, or nothing when `s`
/// holds no newline.
pub proof fn lemma_find_nl_props(s: Seq<char>)
    ensures
        match find_nl(s) {
            Some(i) => 0 <= i < s.len() && s[i] == '\n' && (forall|j: int|
                0 <= j < i ==> s[j] != '\n'),
            None => forall|j: int| 0 <= j < s.len() ==> s[j] != '\n',
        },
    decreases s.len(),
{
    if s.len() == 0 {
    } else if s[0] == '\n' {
    } else {
        lemma_find_nl_props(s.skip(1));
        match find_nl(s.skip(1)) {
            Some(i) => {
                assert(s.skip(1)[i] == s[i + 1]);
                assert forall|j: int| 0 <= j < i + 1 implies s[j] != '\n' by {
                    if j >= 1 {
                        assert(s.skip(1)[j - 1] == s[j]);
                    }
                }
            },
            None => {
                assert forall|j: int| 0 <= j < s.len() implies s[j] != '\n' by {
                    if j >= 1 {
                        assert(s.skip(1)[j - 1] == s[j]);
                    }
                }
            },
        }
    }
}

/// `find_nl` finds the newline at `i` when no earlier character is one.
pub proof fn lemma_find_nl_at(s: Seq<char>, i: int)
    requires
        0 <= i < s.len(),
        s[i] == '\n',
        forall|j: int| 0 <= j < i ==> s[j] != '\n',
    ensures
        find_nl(s) == Some(i),
{
    lemma_find_nl_props(s);
    match find_nl(s) {
        Some(k) => {
            if k < i {
                assert(s[k] != '\n');
            }
            if k > i {
                assert(s[i] != '\n');
            }
        },
        None => {
            assert(s[i] != '\n');
        },
    }
}

/// Splits one `key: value` line off the front of `s`: the text must begin
/// with `key`, and the value runs from there to the first newline. Returns
/// the value and the text after the newline.
pub open spec fn parse_line(s: Seq<char>, key: Seq<char>) -> Option<(Seq<char>, Seq<char>)> {
    if s.len() >= key.len() && s.take(key.len() as int) == key {
        let r = s.skip(key.len() as int);
        match find_nl(r) {
            Some(i) => Some((r.take(i), r.skip(i + 1))),
            None => None,
        }
    } else {
        None
    }
}

/// A value split off a line never contains a newline.
pub proof fn lemma_parse_line_value_no_nl(s: Seq<char>, key: Seq<char>)
    requires
        parse_line(s, key) is Some,
    ensures
        forall|j: int|
            0 <= j < parse_line(s, key)->Some_0.0.len() ==> parse_line(s, key)->Some_0.0[j]
                != '\n',
{
    let r = s.skip(key.len() as int);
    lemma_find_nl_props(r);
    match find_nl(r) {
        Some(i) => {
            assert(forall|j: int| 0 <= j < i ==> r.take(i)[j] == r[j]);
        },
        None => {
            assert(false);
        },
    }
}

/// Reading a line back off exactly what was written yields the written value
/// and the rest, provided the value holds no newline.
pub proof fn lemma_parse_line_round_trip(key: Seq<char>, value: Seq<char>, rest: Seq<char>)
    requires
        forall|j: int| 0 <= j < value.len() ==> value[j] != '\n',
    ensures
        parse_line(key + value + seq!['\n'] + rest, key) == Some((value, rest)),
{
    let s = key + value + seq!['\n'] + rest;
    assert(s.take(key.len() as int) =~= key);
    let r = s.skip(key.len() as int);
    assert(r =~= value + seq!['\n'] + rest);
    assert(r[value.len() as int] == '\n');
    assert(forall|j: int| 0 <= j < value.len() ==> r[j] == value[j]);
    lemma_find_nl_at(r, value.len() as int);
    assert(r.take(value.len() as int) =~= value);
    assert(r.skip(value.len() as int + 1) =~= rest);
}

/// A schedule boundary as text: exactly `HH:MM`, zero-padded.
pub open spec fn time_chars(t: TimeOfDay) -> Seq<char> {
    seq![
        digit_char(t.hour as int / 10),
        digit_char(t.hour as int % 10),
        ':',
        digit_char(t.minute as int / 10),
        digit_char(t.minute as int % 10),
    ]
}

/// The meaning of a schedule boundary value: five characters `HH:MM`, hour
/// below 24 and minute below 60, read at minute granularity.
pub open spec fn parse_time(v: Seq<char>) -> Option<TimeOfDay> {
    if v.len() == 5 && v[2] == ':' && char_digit(v[0]) >= 0 && char_digit(v[1]) >= 0 && char_digit(
        v[3],
    ) >= 0 && char_digit(v[4]) >= 0 {
        let h = char_digit(v[0]) * 10 + char_digit(v[1]);
        let m = char_digit(v[3]) * 10 + char_digit(v[4]);
        if h < 24 && m < 60 {
            Some(TimeOfDay { hour: h as u8, minute: m as u8, second: 0 })
        } else {
            None
        }
    } else {
        None
    }
}

/// Reads a schedule boundary value.
pub fn parse_time_str(v: &str) -> (r: Option<TimeOfDay>)
    ensures
        r == parse_time(v@),
{
    if v.unicode_len() != 5 {
        return None;
    }
    if v.get_char(2) != ':' {
        return None;
    }
    let d0 = match digit_of(v.get_char(0)) {
        None => return None,
        Some(d) => d,
    };
    let d1 = match digit_of(v.get_char(1)) {
        None => return None,
        Some(d) => d,
    };
    let d3 = match digit_of(v.get_char(3)) {
        None => return None,
        Some(d) => d,
    };
    let d4 = match digit_of(v.get_char(4)) {
        None => return None,
        Some(d) => d,
    };
    let h = d0 * 10 + d1;
    let m = d3 * 10 + d4;
    if h < 24 && m < 60 {
        Some(TimeOfDay { hour: h, minute: m, second: 0 })
    } else {
        None
    }
}

/// Writing a boundary and reading it back is the identity on well-formed
/// minute-granular times, and the written value holds no newline.
pub proof fn lemma_time_round_trip(t: TimeOfDay)
    requires
        t.wf(),
        t.second == 0,
    ensures
        parse_time(time_chars(t)) == Some(t),
        forall|j: int| 0 <= j < time_chars(t).len() ==> time_chars(t)[j] != '\n',
{
    let v = time_chars(t);
    assert(char_digit(v[0]) == t.hour as int / 10);
    assert(char_digit(v[1]) == t.hour as int % 10);
    assert(char_digit(v[3]) == t.minute as int / 10);
    assert(char_digit(v[4]) == t.minute as int % 10);
    vstd::arithmetic::div_mod::lemma_fundamental_div_mod(t.hour as int, 10);
    vstd::arithmetic::div_mod::lemma_fundamental_div_mod(t.minute as int, 10);
    assert(parse_time(v) == Some(t));
    assert forall|j: int| 0 <= j < v.len() implies v[j] != '\n' by {
        assert(char_digit('\n') < 0);
    }
}

/// Splits one `key: value` line off the front of `s`, as `parse_line` says.
pub fn split_line<'a>(s: &'a str, key: &str) -> (r: Option<(&'a str, &'a str)>)
    ensures
        match r {
            Some(p) => parse_line(s@, key@) == Some((p.0@, p.1@)),
            None => parse_line(s@, key@) is None,
        },
{
    let n = s.unicode_len();
    let k = key.unicode_len();
    if n < k {
        return None;
    }
    let mut i: usize = 0;
    while i < k
        invariant
            0 <= i <= k,
            k == key@.len(),
            n == s@.len(),
            n >= k,
            forall|j: int| 0 <= j < i ==> s@[j] == key@[j],
        decreases k - i,
    {
        if s.get_char(i) != key.get_char(i) {
            proof {
                if s@.take(k as int) == key@ {
                    assert(s@.take(k as int)[i as int] == s@[i as int]);
                }
            }
            return None;
        }
        i += 1;
    }
    proof {
        assert(s@.take(k as int) =~= key@);
    }
    let ghost r = s@.skip(k as int);
    let mut j: usize = k;
    while j < n
        invariant
            k <= j <= n,
            k == key@.len(),
            n == s@.len(),
            r == s@.skip(k as int),
            s@.take(k as int) == key@,
            forall|t: int| k <= t < j ==> s@[t] != '\n',
        decreases n - j,
    {
        if s.get_char(j) == '\n' {
            let value = s.substring_char(k, j);
            let rest = s.substring_char(j + 1, n);
            proof {
                assert(r[j - k] == s@[j as int]);
                assert forall|t: int| 0 <= t < j - k implies r[t] != '\n' by {
                    assert(r[t] == s@[t + k]);
                }
                lemma_find_nl_at(r, j - k);
                assert(value@ =~= r.take(j - k));
                assert(rest@ =~= r.skip(j - k + 1));
            }
            return Some((value, rest));
        }
        j += 1;
    }
    proof {
        lemma_find_nl_props(r);
        match find_nl(r) {
            Some(i) => {
                assert(r[i] == s@[i + k]);
            },
            None => {},
        }
    }
    None
}

/// The key of each configuration field, colon and space included.
pub open spec fn key_light_start() -> Seq<char> {
    "light_start: "@
}

/// The key of the dark boundary line.
pub open spec fn key_dark_start() -> Seq<char> {
    "dark_start: "@
}

/// The key of the polling interval line.
pub open spec fn key_poll_interval() -> Seq<char> {
    "poll_interval_seconds: "@
}

/// The key of the light colour-scheme line.
pub open spec fn key_light_color_id() -> Seq<char> {
    "light_color_id: "@
}

/// The key of the dark colour-scheme line.
pub open spec fn key_dark_color_id() -> Seq<char> {
    "dark_color_id: "@
}

/// The key of the light theme-name line.
pub open spec fn key_light_theme_name() -> Seq<char> {
    "light_theme_name: "@
}

/// The key of the dark theme-name line.
pub open spec fn key_dark_theme_name() -> Seq<char> {
    "dark_theme_name: "@
}

/// The configuration as text: seven `key: value` lines in fixed order.
pub open spec fn ser_spec(m: ConfigModel) -> Seq<char> {
    key_light_start() + time_chars(m.light_start) + seq!['\n'] + key_dark_start() + time_chars(
        m.dark_start,
    ) + seq!['\n'] + key_poll_interval() + dec_chars(m.poll_interval_seconds) + seq!['\n']
        + key_light_color_id() + m.theme.light_color_id + seq!['\n'] + key_dark_color_id()
        + m.theme.dark_color_id + seq!['\n'] + key_light_theme_name() + m.theme.light_theme_name
        + seq!['\n'] + key_dark_theme_name() + m.theme.dark_theme_name + seq!['\n']
}

/// The meaning of a configuration text: the seven lines in order, nothing
/// after them, every value acceptable. Rejections name the reason: a
/// boundary that is not a time of day is `BadTime`, everything else
/// `Malformed`.
pub open spec fn parse_cfg(s: Seq<char>) -> Result<ConfigModel, ConfigError> {
    match parse_line(s, key_light_start()) {
        None => Err(ConfigError::Malformed),
        Some((v1, s1)) => match parse_time(v1) {
            None => Err(ConfigError::BadTime),
            Some(light) => match parse_line(s1, key_dark_start()) {
                None => Err(ConfigError::Malformed),
                Some((v2, s2)) => match parse_time(v2) {
                    None => Err(ConfigError::BadTime),
                    Some(dark) => match parse_line(s2, key_poll_interval()) {
                        None => Err(ConfigError::Malformed),
                        Some((v3, s3)) => if !(all_digits(v3) && v3.len() >= 1 && 1 <= digits_val(
                            v3,
                        ) <= u64::MAX) {
                            Err(ConfigError::Malformed)
                        } else {
                            match parse_line(s3, key_light_color_id()) {
                                None => Err(ConfigError::Malformed),
                                Some((v4, s4)) => if v4.len() < 1 {
                                    Err(ConfigError::Malformed)
                                } else {
                                    match parse_line(s4, key_dark_color_id()) {
                                        None => Err(ConfigError::Malformed),
                                        Some((v5, s5)) => if v5.len() < 1 {
                                            Err(ConfigError::Malformed)
                                        } else {
                                            match parse_line(s5, key_light_theme_name()) {
                                                None => Err(ConfigError::Malformed),
                                                Some((v6, s6)) => if v6.len() < 1 {
                                                    Err(ConfigError::Malformed)
                                                } else {
                                                    match parse_line(s6, key_dark_theme_name()) {
                                                        None => Err(ConfigError::Malformed),
                                                        Some((v7, s7)) => if v7.len() < 1 || s7.len()
                                                            != 0 {
                                                            Err(ConfigError::Malformed)
                                                        } else {
                                                            Ok(
                                                                ConfigModel {
                                                                    light_start: light,
                                                                    dark_start: dark,
                                                                    poll_interval_seconds:
                                                                        digits_val(v3),
                                                                    theme: ThemeModel {
                                                                        light_color_id: v4,
                                                                        dark_color_id: v5,
                                                                        light_theme_name: v6,
                                                                        dark_theme_name: v7,
                                                                    },
                                                                },
                                                            )
                                                        },
                                                    }
                                                },
                                            }
                                        },
                                    }
                                },
                            }
                        },
                    },
                },
            },
        },
    }
}

/// Writes a schedule boundary as exactly `HH:MM`.
pub fn format_time(t: &TimeOfDay) -> (r: String)
    requires
        t.wf(),
    ensures
        r@ == time_chars(*t),
{
    let mut s = two_digits(t.hour);
    s.append(":");
    let m = two_digits(t.minute);
    s.append(m.as_str());
    proof {
        reveal_strlit(":");
        assert(s@ =~= time_chars(*t));
    }
    s
}

/// Writes a configuration as the flat seven-line text.
pub fn serialize_config(c: &ScheduleConfig) -> (r: String)
    requires
        c.light_start.wf(),
        c.dark_start.wf(),
    ensures
        r@ == ser_spec(c@),
{
    let mut out = String::from_str("light_start: ");
    out.append(format_time(&c.light_start).as_str());
    out.append("\n");
    out.append("dark_start: ");
    out.append(format_time(&c.dark_start).as_str());
    out.append("\n");
    out.append("poll_interval_seconds: ");
    out.append(format_u64(c.poll_interval_seconds).as_str());
    out.append("\n");
    out.append("light_color_id: ");
    out.append(c.theme.light_color_id.as_str());
    out.append("\n");
    out.append("dark_color_id: ");
    out.append(c.theme.dark_color_id.as_str());
    out.append("\n");
    out.append("light_theme_name: ");
    out.append(c.theme.light_theme_name.as_str());
    out.append("\n");
    out.append("dark_theme_name: ");
    out.append(c.theme.dark_theme_name.as_str());
    out.append("\n");
    proof {
        reveal_strlit("\n");
        assert("\n"@ =~= seq!['\n']);
        assert(out@ =~= ser_spec(c@));
    }
    out
}

/// Reads a configuration from the flat text, as `parse_cfg` says; a record
/// read successfully is well-formed.
pub fn parse_config(s: &str) -> (r: Result<ScheduleConfig, ConfigError>)
    ensures
        match r {
            Ok(c) => parse_cfg(s@) == Ok::<ConfigModel, ConfigError>(c@) && c.wf(),
            Err(e) => parse_cfg(s@) == Err::<ConfigModel, ConfigError>(e),
        },
{
    let (v1, s1) = match split_line(s, "light_start: ") {
        None => return Err(ConfigError::Malformed),
        Some(p) => p,
    };
    let light = match parse_time_str(v1) {
        None => return Err(ConfigError::BadTime),
        Some(t) => t,
    };
    let (v2, s2) = match split_line(s1, "dark_start: ") {
        None => return Err(ConfigError::Malformed),
        Some(p) => p,
    };
    let dark = match parse_time_str(v2) {
        None => return Err(ConfigError::BadTime),
        Some(t) => t,
    };
    let (v3, s3) = match split_line(s2, "poll_interval_seconds: ") {
        None => return Err(ConfigError::Malformed),
        Some(p) => p,
    };
    let poll = match parse_u64(v3) {
        None => return Err(ConfigError::Malformed),
        Some(x) => x,
    };
    if poll == 0 {
        return Err(ConfigError::Malformed);
    }
    let (v4, s4) = match split_line(s3, "light_color_id: ") {
        None => return Err(ConfigError::Malformed),
        Some(p) => p,
    };
    if v4.unicode_len() == 0 {
        return Err(ConfigError::Malformed);
    }
    let (v5, s5) = match split_line(s4, "dark_color_id: ") {
        None => return Err(ConfigError::Malformed),
        Some(p) => p,
    };
    if v5.unicode_len() == 0 {
        return Err(ConfigError::Malformed);
    }
    let (v6, s6) = match split_line(s5, "light_theme_name: ") {
        None => return Err(ConfigError::Malformed),
        Some(p) => p,
    };
    if v6.unicode_len() == 0 {
        return Err(ConfigError::Malformed);
    }
    let (v7, s7) = match split_line(s6, "dark_theme_name: ") {
        None => return Err(ConfigError::Malformed),
        Some(p) => p,
    };
    if v7.unicode_len() == 0 {
        return Err(ConfigError::Malformed);
    }
    if !s7.is_empty() {
        return Err(ConfigError::Malformed);
    }
    let c = ScheduleConfig {
        light_start: light,
        dark_start: dark,
        poll_interval_seconds: poll,
        theme: ThemePair {
            light_color_id: String::from_str(v4),
            dark_color_id: String::from_str(v5),
            light_theme_name: String::from_str(v6),
            dark_theme_name: String::from_str(v7),
        },
    };
    proof {
        lemma_parse_line_value_no_nl(s3@, key_light_color_id());
        lemma_parse_line_value_no_nl(s4@, key_dark_color_id());
        lemma_parse_line_value_no_nl(s5@, key_light_theme_name());
        lemma_parse_line_value_no_nl(s6@, key_dark_theme_name());
        assert(valid_field_text(v4@));
        assert(valid_field_text(v5@));
        assert(valid_field_text(v6@));
        assert(valid_field_text(v7@));
        assert(parse_cfg(s@) == Ok::<ConfigModel, ConfigError>(c@));
    }
    Ok(c)
}

/// The round-trip law: writing a well-formed configuration and reading the
/// text back yields the same record.
pub proof fn lemma_config_round_trip(m: ConfigModel)
    requires
        m.wf(),
    ensures
        parse_cfg(ser_spec(m)) == Ok::<ConfigModel, ConfigError>(m),
{
    let v1 = time_chars(m.light_start);
    let v2 = time_chars(m.dark_start);
    let v3 = dec_chars(m.poll_interval_seconds);
    let v4 = m.theme.light_color_id;
    let v5 = m.theme.dark_color_id;
    let v6 = m.theme.light_theme_name;
    let v7 = m.theme.dark_theme_name;
    lemma_time_round_trip(m.light_start);
    lemma_time_round_trip(m.dark_start);
    lemma_dec_chars_val(m.poll_interval_seconds);
    assert forall|j: int| 0 <= j < v3.len() implies v3[j] != '\n' by {
        assert(char_digit(v3[j]) >= 0);
        assert(char_digit('\n') < 0);
    }
    let c7 = key_dark_theme_name() + v7 + seq!['\n'];
    let c6 = key_light_theme_name() + v6 + seq!['\n'] + c7;
    let c5 = key_dark_color_id() + v5 + seq!['\n'] + c6;
    let c4 = key_light_color_id() + v4 + seq!['\n'] + c5;
    let c3 = key_poll_interval() + v3 + seq!['\n'] + c4;
    let c2 = key_dark_start() + v2 + seq!['\n'] + c3;
    let c1 = key_light_start() + v1 + seq!['\n'] + c2;
    assert(ser_spec(m) =~= c1);
    lemma_parse_line_round_trip(key_light_start(), v1, c2);
    lemma_parse_line_round_trip(key_dark_start(), v2, c3);
    lemma_parse_line_round_trip(key_poll_interval(), v3, c4);
    lemma_parse_line_round_trip(key_light_color_id(), v4, c5);
    lemma_parse_line_round_trip(key_dark_color_id(), v5, c6);
    lemma_parse_line_round_trip(key_light_theme_name(), v6, c7);
    lemma_parse_line_round_trip(key_dark_theme_name(), v7, Seq::<char>::empty());
    assert(c7 =~= key_dark_theme_name() + v7 + seq!['\n'] + Seq::<char>::empty());
    assert(parse_cfg(ser_spec(m)) == Ok::<ConfigModel, ConfigError>(m));
}

/// The text persisted when the store is bootstrapped parses back to the
/// built-in default record.
pub proof fn lemma_default_round_trip()
    ensures
        parse_cfg(ser_spec(default_model())) == Ok::<ConfigModel, ConfigError>(default_model()),
{
    lemma_default_wf();
    lemma_config_round_trip(default_model());
}

} // verus!
