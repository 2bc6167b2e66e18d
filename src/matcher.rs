//! Matching windows by regular expressions over their application id and
//! title, with a cache of compiled patterns.

use vstd::prelude::*;
use crate::niri::Window;

verus! {

#[verifier::external_type_specification]
#[verifier::external_body]
pub struct ExRegex(regex::Regex);

#[verifier::external_type_specification]
#[verifier::external_body]
pub struct ExRegexError(regex::Error);

/// `regex::Regex::new` accepts `pattern`.
pub uninterp spec fn regex_compiles(pattern: Seq<char>) -> bool;

/// The regex compiled from `pattern` matches somewhere in `hay`.
pub uninterp spec fn regex_is_match(pattern: Seq<char>, hay: Seq<char>) -> bool;

/// Relies on `regex::Regex::new`: whether it accepts a pattern depends on the
/// pattern alone (the default size limits).
#[verifier::external_body]
fn compile_regex(pattern: &str) -> (r: Result<regex::Regex, regex::Error>)
    ensures
        r is Ok <==> regex_compiles(pattern@),
{
    regex::Regex::new(pattern)
}

/// Relies on `regex::Regex::is_match`, on the regex that `CompiledPattern::compile`
/// built from `p.source`: whether it matches depends on the pattern and the
/// haystack alone.
#[verifier::external_body]
fn regex_match(p: &CompiledPattern, hay: &str) -> (r: bool)
    ensures
        r == regex_is_match(p.source@, hay@),
{
    p.regex.is_match(hay)
}

/// Relies on `regex::Regex`'s derived `Clone`: the copy is the same compiled
/// pattern.
#[verifier::external_body]
fn clone_regex(re: &regex::Regex) -> regex::Regex {
    re.clone()
}

/// A pattern that did not compile.
#[derive(Clone, Debug)]
pub struct PatternError {
    pub pattern: String,
}

/// A regex together with the text it was compiled from.
pub struct CompiledPattern {
    source: String,
    regex: regex::Regex,
}

impl CompiledPattern {
    pub closed spec fn source(&self) -> Seq<char> {
        self.source@
    }

    /// Compiles `pattern`.
    pub fn compile(pattern: &str) -> (r: Result<CompiledPattern, PatternError>)
        ensures
            r is Ok <==> regex_compiles(pattern@),
            r matches Ok(p) ==> p.source() == pattern@,
            r matches Err(e) ==> e.pattern@ == pattern@,
    {
        match compile_regex(pattern) {
            Ok(regex) => Ok(CompiledPattern { source: pattern.to_owned(), regex }),
            Err(_) => Err(PatternError { pattern: pattern.to_owned() }),
        }
    }

    /// The text the pattern was compiled from.
    pub fn as_str(&self) -> (r: &str)
        ensures
            r@ == self.source(),
    {
        self.source.as_str()
    }

    /// Whether the pattern matches somewhere in `hay`.
    pub fn is_match(&self, hay: &str) -> (r: bool)
        ensures
            r == regex_is_match(self.source(), hay@),
    {
        regex_match(self, hay)
    }

    pub fn duplicate(&self) -> (r: CompiledPattern)
        ensures
            r.source() == self.source(),
    {
        CompiledPattern { source: self.source.clone(), regex: clone_regex(&self.regex) }
    }
}

/// Patterns for a window's application id and title; a window matches when
/// any pattern of either list matches.
#[derive(Clone, Debug)]
pub struct WindowMatcher {
    pub app_id: Option<Vec<String>>,
    pub title: Option<Vec<String>>,
}

impl WindowMatcher {
    pub fn new(app_id: Option<Vec<String>>, title: Option<Vec<String>>) -> (r: WindowMatcher)
        ensures
            r.app_id == app_id,
            r.title == title,
    {
        WindowMatcher { app_id, title }
    }
}

/// Outcome of trying `ps` in order on `hay`: `Some(true)` at the first that
/// matches, `None` at a pattern before it that does not compile, `Some(false)`
/// when none matches.
pub open spec fn patterns_outcome(ps: Seq<String>, hay: Seq<char>) -> Option<bool>
    decreases ps.len(),
{
    if ps.len() == 0 {
        Some(false)
    } else if !regex_compiles(ps[0]@) {
        None
    } else if regex_is_match(ps[0]@, hay) {
        Some(true)
    } else {
        patterns_outcome(ps.drop_first(), hay)
    }
}

/// Outcome of a matcher on a window: the application id patterns first, then
/// the title patterns; a list or a window field that is absent matches nothing.
pub open spec fn matcher_outcome(m: WindowMatcher, app: Option<Seq<char>>, title: Option<Seq<char>>) -> Option<bool> {
    let a = match (m.app_id, app) {
        (Some(ps), Some(x)) => patterns_outcome(ps@, x),
        _ => Some(false),
    };
    match a {
        Some(false) => match (m.title, title) {
            (Some(ps), Some(t)) => patterns_outcome(ps@, t),
            _ => Some(false),
        },
        other => other,
    }
}

pub open spec fn opt_str_view(o: Option<&String>) -> Option<Seq<char>> {
    match o {
        Some(s) => Some(s@),
        None => None,
    }
}

/// Compiled patterns, kept until the configuration changes.
pub struct WindowMatcherCache {
    entries: Vec<CompiledPattern>,
}

impl View for WindowMatcherCache {
    type V = Seq<Seq<char>>;

    /// Sources of the cached patterns, oldest first.
    closed spec fn view(&self) -> Seq<Seq<char>> {
        Seq::new(self.entries@.len(), |i: int| self.entries@[i].source())
    }
}

impl WindowMatcherCache {
    pub open spec fn wf(&self) -> bool {
        forall|i: int| 0 <= i < self@.len() ==> regex_compiles(#[trigger] self@[i])
    }

    pub fn new() -> (r: WindowMatcherCache)
        ensures
            r@ == Seq::<Seq<char>>::empty(),
            r.wf(),
    {
        let r = WindowMatcherCache { entries: Vec::new() };
        assert(r@ =~= Seq::<Seq<char>>::empty());
        r
    }

    /// The compiled form of `pattern`: from the cache when it holds it, else
    /// compiled now and added.
    pub fn get_regex(&mut self, pattern: &str) -> (r: Result<CompiledPattern, PatternError>)
        requires
            old(self).wf(),
        ensures
            final(self).wf(),
            r is Ok <==> regex_compiles(pattern@),
            r matches Ok(p) ==> p.source() == pattern@,
            r matches Err(e) ==> e.pattern@ == pattern@,
            old(self)@.contains(pattern@) || !regex_compiles(pattern@) ==> final(self)@ == old(self)@,
            !old(self)@.contains(pattern@) && regex_compiles(pattern@) ==> final(self)@ == old(self)@.push(pattern@),
    {
        let mut i: usize = 0;
        while i < self.entries.len()
            invariant
                i <= self@.len(),
                self.wf(),
                self == old(self),
                forall|j: int| 0 <= j < i ==> self@[j] != pattern@,
            decreases self.entries.len() - i,
        {
            let src = self.entries[i].as_str();
            if crate::text::str_eq(src, pattern) {
                assert(self@[i as int] == pattern@);
                return Ok(self.entries[i].duplicate());
            }
            i += 1;
        }
        assert(!self@.contains(pattern@));
        match CompiledPattern::compile(pattern) {
            Ok(p) => {
                let ghost before = self@;
                self.entries.push(p.duplicate());
                assert(self@ =~= before.push(pattern@));
                Ok(p)
            },
            Err(e) => Err(e),
        }
    }

    /// Empties the cache.
    pub fn clear_cache(&mut self)
        ensures
            final(self)@ == Seq::<Seq<char>>::empty(),
            final(self).wf(),
    {
        self.entries = Vec::new();
        assert(self@ =~= Seq::<Seq<char>>::empty());
    }

    fn patterns_match(&mut self, ps: &Vec<String>, hay: &String) -> (r: Result<bool, PatternError>)
        requires
            old(self).wf(),
        ensures
            final(self).wf(),
            match r {
                Ok(b) => patterns_outcome(ps@, hay@) == Some(b),
                Err(_) => patterns_outcome(ps@, hay@) is None,
            },
    {
        let mut i: usize = 0;
        assert(ps@.subrange(0, ps@.len() as int) =~= ps@);
        while i < ps.len()
            invariant
                i <= ps@.len(),
                self.wf(),
                patterns_outcome(ps@, hay@) == patterns_outcome(ps@.subrange(i as int, ps@.len() as int), hay@),
            decreases ps.len() - i,
        {
            let ghost rest = ps@.subrange(i as int, ps@.len() as int);
            assert(rest.drop_first() =~= ps@.subrange(i + 1, ps@.len() as int));
            assert(rest[0] == ps@[i as int]);
            let re = self.get_regex(ps[i].as_str());
            match re {
                Ok(p) => {
                    if p.is_match(hay.as_str()) {
                        return Ok(true);
                    }
                },
                Err(e) => {
                    return Err(e);
                },
            }
            i += 1;
        }
        Ok(false)
    }

    /// Whether a window with application id `window_app_id` and title
    /// `window_title` matches `matcher`.
    pub fn matches(&mut self, window_app_id: Option<&String>, window_title: Option<&String>, matcher: &WindowMatcher) -> (r: Result<bool, PatternError>)
        requires
            old(self).wf(),
        ensures
            final(self).wf(),
            match r {
                Ok(b) => matcher_outcome(*matcher, opt_str_view(window_app_id), opt_str_view(window_title)) == Some(b),
                Err(_) => matcher_outcome(*matcher, opt_str_view(window_app_id), opt_str_view(window_title)) is None,
            },
    {
        self.matches_lists(window_app_id, window_title, &matcher.app_id, &matcher.title)
    }

    /// As `matches`, with the two pattern lists given apart.
    pub fn matches_lists(&mut self, window_app_id: Option<&String>, window_title: Option<&String>, app_patterns: &Option<Vec<String>>, title_patterns: &Option<Vec<String>>) -> (r: Result<bool, PatternError>)
        requires
            old(self).wf(),
        ensures
            final(self).wf(),
            ({
                let m = WindowMatcher { app_id: *app_patterns, title: *title_patterns };
                match r {
                    Ok(b) => matcher_outcome(m, opt_str_view(window_app_id), opt_str_view(window_title)) == Some(b),
                    Err(_) => matcher_outcome(m, opt_str_view(window_app_id), opt_str_view(window_title)) is None,
                }
            }),
    {
        if let Some(ps) = app_patterns {
            if let Some(a) = window_app_id {
                match self.patterns_match(ps, a) {
                    Ok(true) => {
                        return Ok(true);
                    },
                    Ok(false) => {},
                    Err(e) => {
                        return Err(e);
                    },
                }
            }
        }
        if let Some(ps) = title_patterns {
            if let Some(t) = window_title {
                return self.patterns_match(ps, t);
            }
        }
        Ok(false)
    }
}

/// Outcome of patterns tried in order, given for each whether it compiled
/// (`Some`) and then whether it matched.
pub open spec fn results_outcome(rs: Seq<Option<bool>>) -> Option<bool>
    decreases rs.len(),
{
    if rs.len() == 0 {
        Some(false)
    } else {
        match rs[0] {
            None => None,
            Some(true) => Some(true),
            Some(false) => results_outcome(rs.drop_first()),
        }
    }
}

/// What each pattern gives on `hay`.
pub open spec fn pattern_results(ps: Seq<String>, hay: Seq<char>) -> Seq<Option<bool>> {
    Seq::new(
        ps.len(),
        |i: int|
            if regex_compiles(ps[i]@) {
                Some(regex_is_match(ps[i]@, hay))
            } else {
                None
            },
    )
}

/// Trying patterns in order is combining their results in order.
pub proof fn lemma_patterns_outcome(ps: Seq<String>, hay: Seq<char>)
    ensures
        patterns_outcome(ps, hay) == results_outcome(pattern_results(ps, hay)),
    decreases ps.len(),
{
    if ps.len() > 0 {
        lemma_patterns_outcome(ps.drop_first(), hay);
        assert(pattern_results(ps, hay).drop_first() =~= pattern_results(ps.drop_first(), hay));
    }
}

/// Combines the results of patterns tried in order: the first that does not
/// compile is an error, else any match is a match.
pub fn outcome_of(rs: &Vec<Option<bool>>) -> (r: Option<bool>)
    ensures
        r == results_outcome(rs@),
{
    let mut i: usize = 0;
    assert(rs@.subrange(0, rs@.len() as int) =~= rs@);
    while i < rs.len()
        invariant
            i <= rs@.len(),
            results_outcome(rs@) == results_outcome(rs@.subrange(i as int, rs@.len() as int)),
        decreases rs.len() - i,
    {
        let ghost rest = rs@.subrange(i as int, rs@.len() as int);
        assert(rest.drop_first() =~= rs@.subrange(i + 1, rs@.len() as int));
        assert(rest[0] == rs@[i as int]);
        match rs[i] {
            None => {
                return None;
            },
            Some(true) => {
                return Some(true);
            },
            Some(false) => {},
        }
        i += 1;
    }
    Some(false)
}

/// Combines the outcomes of the application id patterns and of the title
/// patterns, in that order.
pub open spec fn combined(app: Option<bool>, title: Option<bool>) -> Option<bool> {
    match app {
        Some(false) => title,
        other => other,
    }
}

pub fn combine_outcomes(app: Option<bool>, title: Option<bool>) -> (r: Option<bool>)
    ensures
        r == combined(app, title),
{
    match app {
        Some(false) => title,
        other => other,
    }
}

/// A matcher's outcome is the combination of its two lists' outcomes.
pub proof fn lemma_matcher_outcome(m: WindowMatcher, app: Option<Seq<char>>, title: Option<Seq<char>>)
    ensures
        matcher_outcome(m, app, title) == combined(
            match (m.app_id, app) {
                (Some(ps), Some(x)) => patterns_outcome(ps@, x),
                _ => Some(false),
            },
            match (m.title, title) {
                (Some(ps), Some(t)) => patterns_outcome(ps@, t),
                _ => Some(false),
            },
        ),
{
}

/// Index of the first window that a matcher matches, `None` in the `Ok` when
/// none does; an error at a pattern that does not compile before a match.
pub open spec fn window_search(ws: Seq<Window>, m: WindowMatcher, k: int) -> Option<Option<int>>
    decreases ws.len() - k,
{
    if k < 0 || k >= ws.len() {
        Some(None)
    } else {
        match matcher_outcome(m, opt_view(ws[k].app_id), Some(ws[k].title@)) {
            None => None,
            Some(true) => Some(Some(k)),
            Some(false) => window_search(ws, m, k + 1),
        }
    }
}

pub open spec fn opt_view(o: Option<String>) -> Option<Seq<char>> {
    match o {
        Some(s) => Some(s@),
        None => None,
    }
}

/// The first window, by index, that `matcher` matches.
pub fn find_window_by_matcher(windows: &Vec<Window>, matcher: &WindowMatcher, matcher_cache: &mut WindowMatcherCache) -> (r: Result<Option<usize>, PatternError>)
    requires
        old(matcher_cache).wf(),
    ensures
        final(matcher_cache).wf(),
        match r {
            Ok(Some(i)) => window_search(windows@, *matcher, 0) == Some(Some(i as int)) && i < windows@.len(),
            Ok(None) => window_search(windows@, *matcher, 0) == Some(None::<int>),
            Err(_) => window_search(windows@, *matcher, 0) is None,
        },
{
    let mut i: usize = 0;
    while i < windows.len()
        invariant
            i <= windows@.len(),
            matcher_cache.wf(),
            window_search(windows@, *matcher, 0) == window_search(windows@, *matcher, i as int),
        decreases windows.len() - i,
    {
        let w = &windows[i];
        match matcher_cache.matches(w.app_id.as_ref(), Some(&w.title), matcher) {
            Err(e) => {
                return Err(e);
            },
            Ok(true) => {
                return Ok(Some(i));
            },
            Ok(false) => {},
        }
        i += 1;
    }
    Ok(None)
}

/// Outcome of include and exclude patterns on a window: an exclude list
/// that matches refuses it; with no include list every other window
/// matches; else the include lists decide.
pub open spec fn window_outcome(
    w: Window,
    app_ps: Option<Vec<String>>,
    title_ps: Option<Vec<String>>,
    ex_app: Option<Vec<String>>,
    ex_title: Option<Vec<String>>,
) -> Option<bool> {
    let app = opt_view(w.app_id);
    let title = Some(w.title@);
    let ea = match ex_app {
        Some(ps) => matcher_outcome(WindowMatcher { app_id: Some(ps), title: None }, app, title),
        None => Some(false),
    };
    let et = match ex_title {
        Some(ps) => matcher_outcome(WindowMatcher { app_id: None, title: Some(ps) }, app, title),
        None => Some(false),
    };
    match ea {
        None => None,
        Some(true) => Some(false),
        Some(false) => match et {
            None => None,
            Some(true) => Some(false),
            Some(false) => if app_ps is None && title_ps is None {
                Some(true)
            } else {
                matcher_outcome(WindowMatcher { app_id: app_ps, title: title_ps }, app, title)
            },
        },
    }
}

/// Whether window `w` matches the include patterns and none of the exclude
/// patterns.
pub fn matches_window(
    w: &Window,
    app_id_patterns: &Option<Vec<String>>,
    title_patterns: &Option<Vec<String>>,
    exclude_app_id_patterns: &Option<Vec<String>>,
    exclude_title_patterns: &Option<Vec<String>>,
    matcher_cache: &mut WindowMatcherCache,
) -> (r: Result<bool, PatternError>)
    requires
        old(matcher_cache).wf(),
    ensures
        final(matcher_cache).wf(),
        match r {
            Ok(b) => window_outcome(*w, *app_id_patterns, *title_patterns, *exclude_app_id_patterns, *exclude_title_patterns) == Some(b),
            Err(_) => window_outcome(*w, *app_id_patterns, *title_patterns, *exclude_app_id_patterns, *exclude_title_patterns) is None,
        },
{
    let none: Option<Vec<String>> = None;
    if exclude_app_id_patterns.is_some() {
        match matcher_cache.matches_lists(w.app_id.as_ref(), Some(&w.title), exclude_app_id_patterns, &none) {
            Err(e) => {
                return Err(e);
            },
            Ok(true) => {
                return Ok(false);
            },
            Ok(false) => {},
        }
    }
    if exclude_title_patterns.is_some() {
        match matcher_cache.matches_lists(w.app_id.as_ref(), Some(&w.title), &none, exclude_title_patterns) {
            Err(e) => {
                return Err(e);
            },
            Ok(true) => {
                return Ok(false);
            },
            Ok(false) => {},
        }
    }
    if app_id_patterns.is_none() && title_patterns.is_none() {
        return Ok(true);
    }
    matcher_cache.matches_lists(w.app_id.as_ref(), Some(&w.title), app_id_patterns, title_patterns)
}

} // verus!
