//! Patterns that lines from a MUD (triggers) and lines typed by the user (aliases) are
//! matched against, and what a match yields: the texts of the pattern's capture groups.

use vstd::prelude::*;

use crate::error::PatternError;
use crate::idmap::Identifiable;
use crate::model::{ansi_stripped, utf8_lossy, MudLine};
use crate::text::{decimal, owned, push_decimal, push_str};

verus! {

/// `regex::Regex`, a compiled regular expression.
#[verifier::external_type_specification]
#[verifier::external_body]
pub struct ExRegex(regex::Regex);

/// `regex::Error`, why a regular expression did not compile.
#[verifier::external_type_specification]
#[verifier::external_body]
pub struct ExRegexError(regex::Error);

/// Whether `regex::Regex::new` compiles the pattern: it is valid syntax and the compiled
/// expression stays within the default size limit.
pub uninterp spec fn regex_compiles(pattern: Seq<char>) -> bool;

/// The capture groups of the leftmost-first match of the compiled pattern in the haystack,
/// whole match first, then each group in the order of its opening parenthesis: the text the
/// group matched, or nothing for a group that took no part in the match; nothing at all when
/// the pattern does not match.
pub uninterp spec fn regex_captures(pattern: Seq<char>, haystack: Seq<char>) -> Option<
    Seq<Option<Seq<char>>>,
>;

/// `regex::Regex::new`: compiles the pattern, exactly when [`regex_compiles`] says so.
#[verifier::external_body]
fn compile_regex(pattern: &str) -> (r: Result<regex::Regex, regex::Error>)
    ensures
        r is Ok <==> regex_compiles(pattern@),
{
    regex::Regex::new(pattern)
}

/// The message of a `regex::Error`, as its `Display` renders it; nothing is stated of the text.
#[verifier::external_body]
fn regex_error_message(e: &regex::Error) -> (s: String) {
    format!("{e}")
}

/// A compiled regular expression and the pattern it was compiled from.
pub struct Pattern {
    regex: regex::Regex,
    source: Ghost<Seq<char>>,
}

/// The texts of the capture groups, each group's text or nothing.
pub open spec fn groups_view(groups: Seq<Option<String>>) -> Seq<Option<Seq<char>>> {
    groups.map_values(|g: Option<String>| match g {
        Some(s) => Some(s@),
        None => None,
    })
}

/// `regex::Regex::as_str`: the pattern the expression was compiled from.
#[verifier::external_body]
fn regex_source(p: &Pattern) -> (s: &str)
    ensures
        s@ == p.source(),
{
    p.regex.as_str()
}

/// `regex::Regex::captures`: the capture groups of the first match of the pattern in the
/// haystack (see [`regex_captures`]); the whole match is always there.
#[verifier::external_body]
fn regex_captures_of(p: &Pattern, haystack: &str) -> (r: Option<Vec<Option<String>>>)
    ensures
        match r {
            Some(g) => regex_captures(p.source(), haystack@) == Some(groups_view(g@))
                && g@.len() >= 1 && g@[0] is Some,
            None => regex_captures(p.source(), haystack@) is None,
        },
{
    match p.regex.captures(haystack) {
        Some(c) => Some(c.iter().map(|m| m.map(|m| m.as_str().to_owned())).collect()),
        None => None,
    }
}

impl Pattern {
    /// The pattern the expression was compiled from.
    pub closed spec fn source(&self) -> Seq<char> {
        self.source@
    }

    /// Compile a pattern; [`PatternError::InvalidRegex`] if it does not compile.
    pub fn new(pattern: &str) -> (r: Result<Pattern, PatternError>)
        ensures
            r is Ok <==> regex_compiles(pattern@),
            r matches Ok(p) ==> p.source() == pattern@,
    {
        match compile_regex(pattern) {
            Ok(regex) => Ok(Pattern { regex, source: Ghost(pattern@) }),
            Err(e) => Err(PatternError::InvalidRegex(regex_error_message(&e))),
        }
    }

    /// The pattern the expression was compiled from.
    pub fn as_str(&self) -> (s: &str)
        ensures
            s@ == self.source(),
    {
        regex_source(self)
    }

    /// The capture groups of the first match in `haystack` (see [`regex_captures`]).
    pub fn captures(&self, haystack: &str) -> (r: Option<Vec<Option<String>>>)
        ensures
            match r {
                Some(g) => regex_captures(self.source(), haystack@) == Some(groups_view(g@))
                    && g@.len() >= 1,
                None => regex_captures(self.source(), haystack@) is None,
            },
    {
        regex_captures_of(self, haystack)
    }
}

/// Every capture group after the whole match took part in the match.
pub open spec fn groups_present(g: Seq<Option<Seq<char>>>) -> bool {
    forall|i: int| 1 <= i < g.len() ==> (#[trigger] g[i]) is Some
}

/// The texts of the capture groups after the whole match.
pub open spec fn group_texts(g: Seq<Option<Seq<char>>>) -> Seq<Seq<char>> {
    g.skip(1).map_values(|o: Option<Seq<char>>| o.unwrap())
}

/// Whether a pattern's match in a haystack, if there is one, has every group present.
pub open spec fn match_complete(pattern: Seq<char>, haystack: Seq<char>) -> bool {
    match regex_captures(pattern, haystack) {
        Some(g) => groups_present(g),
        None => true,
    }
}

/// What matching gives: whether the pattern matched, and then the texts of its groups after
/// the whole match.
pub open spec fn match_outcome(pattern: Seq<char>, haystack: Seq<char>) -> (bool, Option<
    Seq<Seq<char>>,
>) {
    match regex_captures(pattern, haystack) {
        Some(g) => (true, Some(group_texts(g))),
        None => (false, None),
    }
}

/// The texts of a list of strings.
pub open spec fn texts(v: Seq<String>) -> Seq<Seq<char>> {
    v.map_values(|s: String| s@)
}

/// A matching result as texts.
pub open spec fn outcome_view(r: (bool, Option<Vec<String>>)) -> (bool, Option<Seq<Seq<char>>>) {
    (r.0, match r.1 {
        Some(v) => Some(texts(v@)),
        None => None,
    })
}

/// The texts of the groups after the whole match, if every one of them took part.
fn present_groups(g: &Vec<Option<String>>) -> (r: Option<Vec<String>>)
    requires
        g@.len() >= 1,
    ensures
        match r {
            Some(v) => groups_present(groups_view(g@)) && texts(v@) == group_texts(
                groups_view(g@),
            ),
            None => !groups_present(groups_view(g@)),
        },
{
    let ghost gv = groups_view(g@);
    let mut v: Vec<String> = Vec::new();
    proof {
        assert(texts(v@) =~= gv.skip(1).take(0).map_values(|o: Option<Seq<char>>| o.unwrap()));
    }
    let mut i: usize = 1;
    while i < g.len()
        invariant
            1 <= i <= g@.len(),
            gv == groups_view(g@),
            forall|j: int| 1 <= j < i ==> (#[trigger] gv[j]) is Some,
            texts(v@) == gv.skip(1).take(i - 1).map_values(|o: Option<Seq<char>>| o.unwrap()),
        decreases g@.len() - i,
    {
        match &g[i] {
            Some(s) => {
                let ghost before = v@;
                let t = s.clone();
                v.push(t);
                proof {
                    assert(gv[i as int] == Some(s@));
                    assert(t@ == s@);
                    let w = gv.skip(1).take(i as int).map_values(|o: Option<Seq<char>>| o.unwrap());
                    let u = gv.skip(1).take(i - 1).map_values(|o: Option<Seq<char>>| o.unwrap());
                    assert(v@ == before.push(t));
                    assert(texts(v@) =~= texts(before).push(t@));
                    assert(gv.skip(1).take(i as int) =~= gv.skip(1).take(i - 1).push(gv[i as int]));
                    assert(w =~= u.push(s@));
                    assert(texts(v@) =~= gv.skip(1).take(i as int).map_values(
                        |o: Option<Seq<char>>| o.unwrap(),
                    ));
                }
            },
            None => {
                proof {
                    assert(gv[i as int] is None);
                }
                return None;
            },
        }
        i += 1;
    }
    proof {
        assert(gv.skip(1).take(i - 1) =~= gv.skip(1));
    }
    Some(v)
}

/// The text a trigger matches a line against: the line's text with ANSI escape sequences
/// removed, or as it is.
pub open spec fn trigger_haystack(strip_ansi: bool, line: MudLine) -> Seq<char> {
    if strip_ansi {
        ansi_stripped(utf8_lossy(line.raw@))
    } else {
        utf8_lossy(line.raw@)
    }
}

/// A trigger: a pattern that lines from the MUD are matched against, and what a match does.
pub struct TriggerConfig {
    pub name: String,
    /// Whether ANSI escape sequences are removed from a line before matching.
    pub strip_ansi: bool,
    /// Whether only prompt lines are matched.
    pub prompt: bool,
    /// Whether a matched line is gagged.
    pub gag: bool,
    /// The script callback run with each match, by its handle.
    pub callback: Option<u32>,
    /// The script callback that replaces a matched line, by its handle.
    pub highlight: Option<u32>,
    /// The line sent in reaction to a match.
    pub expansion: Option<String>,
    /// How many lines matched.
    pub hit_count: u64,
    pub regex: Pattern,
}

impl TriggerConfig {
    /// A trigger for a pattern, with no hits yet; [`PatternError::InvalidRegex`] if the
    /// pattern does not compile.
    pub fn new(
        pattern: &str,
        name: String,
        strip_ansi: bool,
        prompt: bool,
        gag: bool,
        callback: Option<u32>,
        highlight: Option<u32>,
        expansion: Option<String>,
    ) -> (r: Result<TriggerConfig, PatternError>)
        ensures
            r is Ok <==> regex_compiles(pattern@),
            r matches Ok(t) ==> {
                &&& t.regex.source() == pattern@
                &&& t.name == name
                &&& t.strip_ansi == strip_ansi
                &&& t.prompt == prompt
                &&& t.gag == gag
                &&& t.callback == callback
                &&& t.highlight == highlight
                &&& t.expansion == expansion
                &&& t.hit_count == 0
            },
    {
        let regex = Pattern::new(pattern)?;
        Ok(
            TriggerConfig {
                name,
                strip_ansi,
                prompt,
                gag,
                callback,
                highlight,
                expansion,
                hit_count: 0,
                regex,
            },
        )
    }

    /// The trigger's pattern.
    pub fn pattern(&self) -> (s: &str)
        ensures
            s@ == self.regex.source(),
    {
        self.regex.as_str()
    }

    /// Whether the trigger looks at a line at all: a prompt-only trigger skips other lines.
    pub open spec fn considers(&self, line: MudLine) -> bool {
        line.prompt || !self.prompt
    }

    /// The text the line is matched against, for a line the trigger looks at.
    fn haystack(&self, line: &MudLine) -> (s: String)
        ensures
            s@ == trigger_haystack(self.strip_ansi, *line),
    {
        if self.strip_ansi {
            line.stripped()
        } else {
            line.to_str()
        }
    }

    /// Match a line: a trigger that only looks at prompts does not match other lines;
    /// otherwise whether the pattern matches the line's text (see [`trigger_haystack`]), with
    /// the texts of the groups after the whole match.
    ///
    /// Every group of a match must take part in it (see [`TriggerConfig::matches_checked`]).
    pub fn matches(&self, line: &MudLine) -> (r: (bool, Option<Vec<String>>))
        requires
            self.considers(*line) ==> match_complete(
                self.regex.source(),
                trigger_haystack(self.strip_ansi, *line),
            ),
        ensures
            outcome_view(r) == if self.considers(*line) {
                match_outcome(self.regex.source(), trigger_haystack(self.strip_ansi, *line))
            } else {
                (false, None)
            },
    {
        if !line.prompt && self.prompt {
            return (false, None);
        }
        let hay = self.haystack(line);
        match self.regex.captures(hay.as_str()) {
            None => (false, None),
            Some(g) => match present_groups(&g) {
                Some(v) => (true, Some(v)),
                None => (false, None),
            },
        }
    }

    /// Whether every group of the line's match, if the trigger looks at the line and matches
    /// it, takes part in the match.
    pub fn match_is_complete(&self, line: &MudLine) -> (b: bool)
        ensures
            b == (self.considers(*line) ==> match_complete(
                self.regex.source(),
                trigger_haystack(self.strip_ansi, *line),
            )),
    {
        if !line.prompt && self.prompt {
            return true;
        }
        let hay = self.haystack(line);
        match self.regex.captures(hay.as_str()) {
            None => true,
            Some(g) => present_groups(&g).is_some(),
        }
    }

    /// As [`TriggerConfig::matches`], or nothing where a group of the match took no part in
    /// it.
    pub fn matches_checked(&self, line: &MudLine) -> (r: Option<(bool, Option<Vec<String>>)>)
        ensures
            match r {
                Some(o) => outcome_view(o) == if self.considers(*line) {
                    match_outcome(self.regex.source(), trigger_haystack(self.strip_ansi, *line))
                } else {
                    (false, None)
                },
                None => self.considers(*line) && !match_complete(
                    self.regex.source(),
                    trigger_haystack(self.strip_ansi, *line),
                ),
            },
    {
        if self.match_is_complete(line) {
            Some(self.matches(line))
        } else {
            None
        }
    }

    /// The textual form, `<name>: <pattern>`.
    pub fn to_string(&self) -> (s: String)
        ensures
            s@ == self.name@ + ": "@ + self.regex.source(),
    {
        let mut s = owned(self.name.as_str());
        push_str(&mut s, ": ");
        push_str(&mut s, self.pattern());
        s
    }
}

/// An alias: a pattern that lines typed by the user are matched against, and what a match
/// does.
pub struct AliasConfig {
    pub name: String,
    /// The script callback run with each match, by its handle.
    pub callback: Option<u32>,
    /// The text sent in place of a matched line.
    pub expansion: Option<String>,
    /// How many lines matched.
    pub hit_count: u64,
    pub regex: Pattern,
}

impl AliasConfig {
    /// An alias for a pattern, with no hits yet; [`PatternError::InvalidRegex`] if the pattern
    /// does not compile.
    pub fn new(
        pattern: &str,
        name: String,
        callback: Option<u32>,
        expansion: Option<String>,
    ) -> (r: Result<AliasConfig, PatternError>)
        ensures
            r is Ok <==> regex_compiles(pattern@),
            r matches Ok(a) ==> {
                &&& a.regex.source() == pattern@
                &&& a.name == name
                &&& a.callback == callback
                &&& a.expansion == expansion
                &&& a.hit_count == 0
            },
    {
        let regex = Pattern::new(pattern)?;
        Ok(AliasConfig { name, callback, expansion, hit_count: 0, regex })
    }

    /// The alias's pattern.
    pub fn pattern(&self) -> (s: &str)
        ensures
            s@ == self.regex.source(),
    {
        self.regex.as_str()
    }

    /// Match a typed line: whether the pattern matches it, with the texts of the groups after
    /// the whole match.
    ///
    /// Every group of a match must take part in it (see [`AliasConfig::matches_checked`]).
    pub fn matches(&self, input: &str) -> (r: (bool, Option<Vec<String>>))
        requires
            match_complete(self.regex.source(), input@),
        ensures
            outcome_view(r) == match_outcome(self.regex.source(), input@),
    {
        match self.regex.captures(input) {
            None => (false, None),
            Some(g) => match present_groups(&g) {
                Some(v) => (true, Some(v)),
                None => (false, None),
            },
        }
    }

    /// Whether every group of the match in `input`, if there is one, takes part in it.
    pub fn match_is_complete(&self, input: &str) -> (b: bool)
        ensures
            b == match_complete(self.regex.source(), input@),
    {
        match self.regex.captures(input) {
            None => true,
            Some(g) => present_groups(&g).is_some(),
        }
    }

    /// As [`AliasConfig::matches`], or nothing where a group of the match took no part in it.
    pub fn matches_checked(&self, input: &str) -> (r: Option<(bool, Option<Vec<String>>)>)
        ensures
            match r {
                Some(o) => outcome_view(o) == match_outcome(self.regex.source(), input@),
                None => !match_complete(self.regex.source(), input@),
            },
    {
        if self.match_is_complete(input) {
            Some(self.matches(input))
        } else {
            None
        }
    }

    /// The textual form, `<name>: <pattern>`.
    pub fn to_string(&self) -> (s: String)
        ensures
            s@ == self.name@ + ": "@ + self.regex.source(),
    {
        let mut s = owned(self.name.as_str());
        push_str(&mut s, ": ");
        push_str(&mut s, self.pattern());
        s
    }
}

/// A trigger registered by a script module, with its identifier and whether it is enabled.
pub struct Trigger {
    pub id: u32,
    pub enabled: bool,
    pub module: String,
    pub config: TriggerConfig,
}

impl Trigger {
    /// The textual form, `Trigger(<id>)`.
    pub fn to_string(&self) -> (s: String)
        ensures
            s@ == "Trigger("@ + decimal(self.id as nat) + ")"@,
    {
        let mut s = owned("Trigger(");
        push_decimal(&mut s, self.id as u64);
        push_str(&mut s, ")");
        s
    }
}

impl Identifiable for Trigger {
    open spec fn spec_id(&self) -> u32 {
        self.id
    }

    fn id(&self) -> (r: u32) {
        self.id
    }
}

/// An alias registered by a script module, with its identifier and whether it is enabled.
pub struct Alias {
    pub id: u32,
    pub enabled: bool,
    pub module: String,
    pub config: AliasConfig,
}

impl Alias {
    /// The textual form, `Alias(<id>)`.
    pub fn to_string(&self) -> (s: String)
        ensures
            s@ == "Alias("@ + decimal(self.id as nat) + ")"@,
    {
        let mut s = owned("Alias(");
        push_decimal(&mut s, self.id as u64);
        push_str(&mut s, ")");
        s
    }
}

impl Identifiable for Alias {
    open spec fn spec_id(&self) -> u32 {
        self.id
    }

    fn id(&self) -> (r: u32) {
        self.id
    }
}

/// Which lines a trigger looks at: one that is not prompt-only looks at every line, prompts
/// included; a prompt-only one looks at prompt lines and no others. What it matches against
/// depends on the line's text alone, not on whether the line is a prompt, so a trigger that is
/// not prompt-only gets the same outcome (see [`TriggerConfig::matches`]) on a line whether or
/// not that line is a prompt.
pub proof fn lemma_trigger_considers(t: TriggerConfig, line: MudLine, other: MudLine)
    requires
        other.raw@ == line.raw@,
    ensures
        !t.prompt ==> t.considers(line) && t.considers(other),
        t.prompt ==> (t.considers(line) <==> line.prompt),
        trigger_haystack(t.strip_ansi, line) == trigger_haystack(t.strip_ansi, other),
{
}

} // verus!
