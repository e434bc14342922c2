//! Capability detection from the environment: whether the terminal
//! supports hyperlinks, and whether a screen reader is in use, decided from
//! the environment values the application reads.

use vstd::prelude::*;
use crate::text::chars_of;

verus! {

/// The lowercase mapping of a string (std's `str::to_lowercase`).
pub uninterp spec fn lowercase_of(s: Seq<char>) -> Seq<char>;

/// The lowercase mapping of `s` (std's `str::to_lowercase`), as characters.
/// The contract names the result and says nothing more of it.
#[verifier::external_body]
fn to_lowercase(s: &str) -> (r: Vec<char>)
    ensures
        r@ == lowercase_of(s@),
{
    s.to_lowercase().chars().collect()
}

/// Whether `t` occurs in `s` as a contiguous run.
pub open spec fn contains_seq(s: Seq<char>, t: Seq<char>) -> bool {
    exists|i: int| 0 <= i && i + t.len() <= s.len() && #[trigger] s.subrange(i, i + t.len()) == t
}

/// Whether `t` occurs in `s` starting at position `i`.
fn matches_at(s: &Vec<char>, t: &[char], i: usize) -> (r: bool)
    requires
        i + t@.len() <= s@.len(),
    ensures
        r == (s@.subrange(i as int, i + t@.len()) == t@),
{
    let n: usize = s.len();
    let mut j: usize = 0;
    while j < t.len()
        invariant
            n == s@.len(),
            j <= t@.len(),
            i + t@.len() <= s@.len(),
            s@.subrange(i as int, i + j) == t@.take(j as int),
        decreases t@.len() - j,
    {
        if s[i + j] != t[j] {
            assert(s@.subrange(i as int, i + t@.len())[j as int] != t@[j as int]);
            return false;
        }
        j = j + 1;
        assert(s@.subrange(i as int, i + j) =~= t@.take(j as int));
    }
    assert(t@.take(t@.len() as int) =~= t@);
    true
}

/// Whether `t` occurs in `s`.
fn contains(s: &Vec<char>, t: &[char]) -> (r: bool)
    ensures
        r == contains_seq(s@, t@),
{
    if t.len() > s.len() {
        return false;
    }
    let last: usize = s.len() - t.len();
    let mut i: usize = 0;
    loop
        invariant
            t@.len() <= s@.len(),
            last == s@.len() - t@.len(),
            i <= last,
            forall|k: int| 0 <= k < i ==> #[trigger] s@.subrange(k, k + t@.len()) != t@,
        decreases last - i,
    {
        if matches_at(s, t, i) {
            return true;
        }
        if i == last {
            return false;
        }
        i = i + 1;
    }
}

/// Whether `s` equals the characters of `t`.
fn equals(s: &Vec<char>, t: &[char]) -> (r: bool)
    ensures
        r == (s@ == t@),
{
    if s.len() != t.len() {
        return false;
    }
    let mut i: usize = 0;
    while i < s.len()
        invariant
            i <= s@.len(),
            s@.len() == t@.len(),
            s@.take(i as int) == t@.take(i as int),
        decreases s@.len() - i,
    {
        if s[i] != t[i] {
            assert(s@[i as int] != t@[i as int]);
            return false;
        }
        i = i + 1;
        assert(s@.take(i as int) =~= s@.take(i - 1).push(s@[i - 1]));
        assert(t@.take(i as int) =~= t@.take(i - 1).push(t@[i - 1]));
    }
    assert(s@ =~= s@.take(s@.len() as int));
    assert(t@ =~= t@.take(t@.len() as int));
    true
}

/// The value of a decimal numeral.
pub open spec fn digits_value(s: Seq<char>) -> nat
    decreases s.len(),
{
    if s.len() == 0 {
        0
    } else {
        (10 * digits_value(s.drop_last()) + (s.last() as int - '0' as int)) as nat
    }
}

/// Whether every character is a decimal digit.
pub open spec fn all_digits(s: Seq<char>) -> bool {
    forall|i: int| 0 <= i < s.len() ==> '0' <= #[trigger] s[i] && s[i] <= '9'
}

/// A `u32` read as std's `str::parse::<u32>` reads it: an optional `+`,
/// then at least one decimal digit and nothing else, with a value that fits.
pub open spec fn parse_u32_spec(s: Seq<char>) -> Option<u32> {
    let digits = if s.len() > 0 && s[0] == '+' {
        s.drop_first()
    } else {
        s
    };
    if digits.len() > 0 && all_digits(digits) && digits_value(digits) <= u32::MAX {
        Some(digits_value(digits) as u32)
    } else {
        None
    }
}

/// Reads a `u32` (see `parse_u32_spec`).
pub fn parse_u32(s: &str) -> (r: Option<u32>)
    ensures
        r == parse_u32_spec(s@),
{
    let cs = chars_of(s);
    let start: usize = if cs.len() > 0 && cs[0] == '+' {
        1
    } else {
        0
    };
    let ghost digits = if cs@.len() > 0 && cs@[0] == '+' {
        cs@.drop_first()
    } else {
        cs@
    };
    assert(digits =~= cs@.skip(start as int));
    if cs.len() == start {
        return None;
    }
    let mut value: u64 = 0;
    let mut i: usize = start;
    while i < cs.len()
        invariant
            start <= i <= cs@.len(),
            cs@ == s@,
            digits == cs@.skip(start as int),
            digits == (if cs@.len() > 0 && cs@[0] == '+' {
                cs@.drop_first()
            } else {
                cs@
            }),
            all_digits(cs@.subrange(start as int, i as int)),
            value == digits_value(cs@.subrange(start as int, i as int)),
            value <= u32::MAX,
        decreases cs@.len() - i,
    {
        let c = cs[i];
        if c < '0' || c > '9' {
            assert(!all_digits(digits)) by {
                assert(digits[i - start] == cs@[i as int]);
            }
            return None;
        }
        let d: u64 = (c as u32 - '0' as u32) as u64;
        assert(cs@.subrange(start as int, i + 1).drop_last() =~= cs@.subrange(start as int, i as int));
        value = value * 10 + d;
        i = i + 1;
        if value > 4294967295 {
            proof {
                if all_digits(digits) {
                    assert(digits.take(i - start) =~= cs@.subrange(start as int, i as int));
                    lemma_digits_value_prefix(digits, (i - start) as int);
                }
            }
            return None;
        }
    }
    assert(cs@.subrange(start as int, i as int) =~= digits);
    Some(value as u32)
}

/// A numeral's value is at least that of any of its prefixes.
proof fn lemma_digits_value_prefix(s: Seq<char>, k: int)
    requires
        0 <= k <= s.len(),
        all_digits(s),
    ensures
        digits_value(s.take(k)) <= digits_value(s),
    decreases s.len() - k,
{
    if k < s.len() {
        assert(s.drop_last().take(k) =~= s.take(k));
        lemma_digits_value_prefix(s.drop_last(), k);
        assert(all_digits(s.drop_last()));
    } else {
        assert(s.take(k) =~= s);
    }
}

/// The environment values that decide hyperlink support.
pub struct TerminalEnv {
    /// `TERM_PROGRAM`
    pub term_program: Option<String>,
    /// Whether `WT_SESSION` is set
    pub wt_session: bool,
    /// `VTE_VERSION`
    pub vte_version: Option<String>,
    /// `COLORTERM`
    pub colorterm: Option<String>,
    /// Whether `KONSOLE_VERSION` is set
    pub konsole_version: bool,
}

/// Whether a lowercased `TERM_PROGRAM` names a terminal known to support hyperlinks.
pub open spec fn known_hyperlink_terminal(lower: Seq<char>) -> bool {
    contains_seq(lower, seq!['i', 't', 'e', 'r', 'm']) || contains_seq(lower, seq!['h', 'y', 'p', 'e', 'r'])
        || contains_seq(lower, seq!['w', 'e', 'z', 't', 'e', 'r', 'm']) || contains_seq(
        lower,
        seq!['k', 'i', 't', 't', 'y'],
    ) || contains_seq(lower, seq!['a', 'l', 'a', 'c', 'r', 'i', 't', 't', 'y'])
}

/// Hyperlink support by the environment: a known terminal program, Windows
/// Terminal, VTE 0.50 or later, a truecolor terminal, or Konsole.
pub open spec fn hyperlinks_by_env(env: &TerminalEnv) -> bool {
    (match env.term_program {
        Some(t) => known_hyperlink_terminal(lowercase_of(t@)),
        None => false,
    }) || env.wt_session || (match env.vte_version {
        Some(v) => match parse_u32_spec(v@) {
            Some(n) => n >= 5000,
            None => false,
        },
        None => false,
    }) || (match env.colorterm {
        Some(c) => c@ == seq!['t', 'r', 'u', 'e', 'c', 'o', 'l', 'o', 'r'] || c@ == seq!['2', '4', 'b', 'i', 't'],
        None => false,
    }) || env.konsole_version
}

/// Whether the environment indicates hyperlink support (see `hyperlinks_by_env`).
pub fn detect_hyperlink_support(env: &TerminalEnv) -> (r: bool)
    ensures
        r == hyperlinks_by_env(env),
{
    let known = match &env.term_program {
        Some(t) => {
            let lower = to_lowercase(t.as_str());
            let a = contains(&lower, &['i', 't', 'e', 'r', 'm']);
            let b = contains(&lower, &['h', 'y', 'p', 'e', 'r']);
            let c = contains(&lower, &['w', 'e', 'z', 't', 'e', 'r', 'm']);
            let d = contains(&lower, &['k', 'i', 't', 't', 'y']);
            let e = contains(&lower, &['a', 'l', 'a', 'c', 'r', 'i', 't', 't', 'y']);
            proof {
                assert(['i', 't', 'e', 'r', 'm']@ =~= seq!['i', 't', 'e', 'r', 'm']);
                assert(['h', 'y', 'p', 'e', 'r']@ =~= seq!['h', 'y', 'p', 'e', 'r']);
                assert(['w', 'e', 'z', 't', 'e', 'r', 'm']@ =~= seq!['w', 'e', 'z', 't', 'e', 'r', 'm']);
                assert(['k', 'i', 't', 't', 'y']@ =~= seq!['k', 'i', 't', 't', 'y']);
                assert(['a', 'l', 'a', 'c', 'r', 'i', 't', 't', 'y']@ =~= seq!['a', 'l', 'a', 'c', 'r', 'i', 't', 't', 'y']);
            }
            a || b || c || d || e
        },
        None => false,
    };
    if known {
        return true;
    }
    if env.wt_session {
        return true;
    }
    if let Some(v) = &env.vte_version {
        if let Some(n) = parse_u32(v.as_str()) {
            if n >= 5000 {
                return true;
            }
        }
    }
    if let Some(c) = &env.colorterm {
        let cs = chars_of(c.as_str());
        let t = equals(&cs, &['t', 'r', 'u', 'e', 'c', 'o', 'l', 'o', 'r']);
        let b = equals(&cs, &['2', '4', 'b', 'i', 't']);
        proof {
            assert(['t', 'r', 'u', 'e', 'c', 'o', 'l', 'o', 'r']@ =~= seq!['t', 'r', 'u', 'e', 'c', 'o', 'l', 'o', 'r']);
            assert(['2', '4', 'b', 'i', 't']@ =~= seq!['2', '4', 'b', 'i', 't']);
        }
        if t || b {
            return true;
        }
    }
    env.konsole_version
}

/// The environment values that suggest a screen reader.
pub struct ScreenReaderEnv {
    /// `SCREEN_READER`
    pub screen_reader: Option<String>,
    /// `ACCESSIBILITY_ENABLED`
    pub accessibility_enabled: Option<String>,
    /// `ORCA_ENABLED` (Linux Orca)
    pub orca_enabled: Option<String>,
    /// `NVDA_RUNNING` (Windows NVDA)
    pub nvda_running: Option<String>,
    /// `JAWS_RUNNING` (Windows JAWS)
    pub jaws_running: Option<String>,
    /// `VOICEOVER_RUNNING` (macOS VoiceOver)
    pub voiceover_running: Option<String>,
    /// `TERM_PROGRAM`
    pub term_program: Option<String>,
    /// Whether the system setting reports VoiceOver on
    pub voiceover_setting: bool,
}

/// Whether an indicator variable's value reads as "on": set, not empty,
/// not `0`, and not `false` in any letter case.
pub open spec fn indicator_on(value: Option<String>) -> bool {
    match value {
        Some(v) => v@.len() > 0 && v@ != seq!['0'] && lowercase_of(v@) != seq!['f', 'a', 'l', 's', 'e'],
        None => false,
    }
}

/// Screen reader use by the environment: an indicator variable that reads
/// as on, a terminal program whose name mentions accessibility, or the
/// system setting.
pub open spec fn screen_reader_by_env(env: &ScreenReaderEnv) -> bool {
    indicator_on(env.screen_reader) || indicator_on(env.accessibility_enabled) || indicator_on(
        env.orca_enabled,
    ) || indicator_on(env.nvda_running) || indicator_on(env.jaws_running) || indicator_on(
        env.voiceover_running,
    ) || (match env.term_program {
        Some(t) => contains_seq(
            lowercase_of(t@),
            seq!['a', 'c', 'c', 'e', 's', 's', 'i', 'b', 'i', 'l', 'i', 't', 'y'],
        ),
        None => false,
    }) || env.voiceover_setting
}

/// Whether an indicator's value reads as on.
fn indicator(value: &Option<String>) -> (r: bool)
    ensures
        r == indicator_on(*value),
{
    match value {
        Some(v) => {
            let cs = chars_of(v.as_str());
            if cs.len() == 0 {
                return false;
            }
            let zero = equals(&cs, &['0']);
            let lower = to_lowercase(v.as_str());
            let f = equals(&lower, &['f', 'a', 'l', 's', 'e']);
            proof {
                assert(['0']@ =~= seq!['0']);
                assert(['f', 'a', 'l', 's', 'e']@ =~= seq!['f', 'a', 'l', 's', 'e']);
            }
            !zero && !f
        },
        None => false,
    }
}

/// Whether the environment suggests a screen reader (see `screen_reader_by_env`).
pub fn detect_screen_reader(env: &ScreenReaderEnv) -> (r: bool)
    ensures
        r == screen_reader_by_env(env),
{
    if indicator(&env.screen_reader) || indicator(&env.accessibility_enabled) || indicator(
        &env.orca_enabled,
    ) || indicator(&env.nvda_running) || indicator(&env.jaws_running) || indicator(
        &env.voiceover_running,
    ) {
        return true;
    }
    if let Some(t) = &env.term_program {
        let lower = to_lowercase(t.as_str());
        let a = contains(&lower, &['a', 'c', 'c', 'e', 's', 's', 'i', 'b', 'i', 'l', 'i', 't', 'y']);
        proof {
            assert(['a', 'c', 'c', 'e', 's', 's', 'i', 'b', 'i', 'l', 'i', 't', 'y']@ =~= seq![
                'a',
                'c',
                'c',
                'e',
                's',
                's',
                'i',
                'b',
                'i',
                'l',
                'i',
                't',
                'y',
            ]);
        }
        if a {
            return true;
        }
    }
    env.voiceover_setting
}

/// The remembered answer to "is a screen reader enabled?", if any.
#[derive(Debug, Clone, Copy, PartialEq, Eq, Structural)]
pub struct ScreenReaderCache {
    pub cached: Option<bool>,
}

impl ScreenReaderCache {
    /// Nothing remembered.
    pub fn new() -> (c: Self)
        ensures
            c.cached is None,
    {
        ScreenReaderCache { cached: None }
    }

    /// The remembered answer, or (the first time) the answer of `detect`,
    /// which is then remembered.
    pub fn is_enabled<F: FnOnce() -> bool>(&mut self, detect: F) -> (r: bool)
        requires
            old(self).cached is None ==> call_requires(detect, ()),
        ensures
            old(self).cached matches Some(v) ==> r == v && *final(self) == *old(self),
            old(self).cached is None ==> call_ensures(detect, (), r) && final(self).cached == Some(r),
    {
        match self.cached {
            Some(v) => v,
            None => {
                let d = detect();
                self.cached = Some(d);
                d
            },
        }
    }

    /// Remember a given answer (for testing or override).
    pub fn set(&mut self, enabled: bool)
        ensures
            final(self).cached == Some(enabled),
    {
        self.cached = Some(enabled);
    }

    /// Forget the answer, forcing detection on the next query.
    pub fn clear(&mut self)
        ensures
            final(self).cached is None,
    {
        self.cached = None;
    }
}

/// A terminal whose `COLORTERM` is `truecolor` or `24bit` is taken to
/// support hyperlinks, as is one in Windows Terminal (`WT_SESSION`) or
/// Konsole (`KONSOLE_VERSION`), or on VTE 0.50 or later, whatever else the
/// environment says; an environment with none of the variables gives no
/// support.
pub proof fn law_hyperlink_indicators(env: TerminalEnv)
    ensures
        env.colorterm matches Some(c) && c@ == seq!['t', 'r', 'u', 'e', 'c', 'o', 'l', 'o', 'r']
            ==> hyperlinks_by_env(&env),
        env.colorterm matches Some(c) && c@ == seq!['2', '4', 'b', 'i', 't'] ==> hyperlinks_by_env(&env),
        env.wt_session ==> hyperlinks_by_env(&env),
        env.konsole_version ==> hyperlinks_by_env(&env),
        env.vte_version matches Some(v) && parse_u32_spec(v@) matches Some(n) && n >= 5000 ==> hyperlinks_by_env(&env),
        env.term_program is None && !env.wt_session && env.vte_version is None && env.colorterm is None
            && !env.konsole_version ==> !hyperlinks_by_env(&env),
{
}

} // verus!
