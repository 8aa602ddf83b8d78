use crate::config::{pattern_views, CustomPattern, CustomPatternView, MarkerMode};
use crate::glob::{glob_hits, pattern_matches};
use crate::scanner::detector::{
    builtin_patterns, has_entry, has_name, texts, DirEntry, ProjectDetector, ProjectType,
};
use crate::scanner::{opt_rule, MatchedRule, RuleSource, RuleView};
use crate::text::{
    back_space, chars_contain, chars_eq_str, copy_string, find_char, position_of, skip_space,
    skip_spaces, slice_to_string, string_texts, text_in_list, to_chars, trim_end,
};
use vstd::prelude::*;

verus! {

/// The pattern that one line of an ignore file contributes, the line being
/// `s[from..to]`: none for a blank line, a comment (`#`) or a negation (`!`);
/// otherwise the trimmed line without one leading and one trailing `/`, if
/// anything is left.
pub open spec fn line_pattern(s: Seq<char>, from: int, to: int) -> Option<Seq<char>> {
    let a = skip_space(s, from, to);
    let b = back_space(s, a, to);
    if a >= b {
        None
    } else if s[a] == '#' || s[a] == '!' {
        None
    } else {
        let a2 = if s[a] == '/' {
            a + 1
        } else {
            a
        };
        let b2 = if a2 < b && s[b - 1] == '/' {
            b - 1
        } else {
            b
        };
        if a2 >= b2 {
            None
        } else {
            Some(s.subrange(a2, b2))
        }
    }
}

/// The patterns of the lines of `s` that begin at or after position `from`.
pub open spec fn patterns_from(s: Seq<char>, from: int) -> Seq<Seq<char>>
    decreases s.len() - from,
{
    if from < 0 || from > s.len() {
        seq![]
    } else {
        let e = find_char(s, '\n', from, s.len() as int);
        let head = match line_pattern(s, from, e) {
            Some(p) => seq![p],
            None => seq![],
        };
        if from <= e < s.len() {
            head + patterns_from(s, e + 1)
        } else {
            head
        }
    }
}

/// The patterns that an ignore file with the given content holds, line by line.
pub open spec fn ignore_patterns(content: Seq<char>) -> Seq<Seq<char>> {
    patterns_from(content, 0)
}

/// Parses the content of an ignore file into its patterns.
pub fn parse_ignore_file(content: &str) -> (out: Vec<String>)
    ensures
        string_texts(out@) == ignore_patterns(content@),
{
    let v = to_chars(content);
    let n = v.len();
    let mut out: Vec<String> = Vec::new();
    let mut pos: usize = 0;
    let mut done = false;
    assert(string_texts(out@) + patterns_from(v@, 0) =~= patterns_from(v@, 0));
    while !done
        invariant
            pos <= n,
            n == v.len(),
            !done ==> patterns_from(v@, 0) == string_texts(out@) + patterns_from(v@, pos as int),
            done ==> patterns_from(v@, 0) == string_texts(out@),
        decreases n - pos + (if done { 0int } else { 1int }),
    {
        let ghost before = string_texts(out@);
        let e = position_of(&v, '\n', pos, n);
        let a = skip_spaces(&v, pos, e);
        let b = trim_end(&v, a, e);
        if a < b && v[a] != '#' && v[a] != '!' {
            let a2 = if v[a] == '/' {
                a + 1
            } else {
                a
            };
            let b2 = if a2 < b && v[b - 1] == '/' {
                b - 1
            } else {
                b
            };
            if a2 < b2 {
                let p = slice_to_string(&v, a2, b2);
                out.push(p);
                assert(string_texts(out@) =~= before.push(v@.subrange(a2 as int, b2 as int)));
            }
        }
        let ghost head: Seq<Seq<char>> = match line_pattern(v@, pos as int, e as int) {
            Some(p) => seq![p],
            None => seq![],
        };
        assert(string_texts(out@) =~= before + head);
        if e < n {
            assert(patterns_from(v@, pos as int) == head + patterns_from(v@, e + 1));
            assert(before + (head + patterns_from(v@, e + 1)) =~= (before + head) + patterns_from(
                v@,
                e + 1,
            ));
            pos = e + 1;
        } else {
            assert(patterns_from(v@, pos as int) == head);
            done = true;
        }
    }
    out
}

/// Whether a custom pattern applies to a project root with the given listing.
pub open spec fn marker_gate(cp: CustomPatternView, entries: Seq<DirEntry>) -> bool {
    match cp.marker_mode {
        MarkerMode::AnyOf => exists|k: int|
            0 <= k < cp.marker_files.len() && has_name(entries, #[trigger] cp.marker_files[k]),
        MarkerMode::AllOf => forall|k: int|
            0 <= k < cp.marker_files.len() ==> has_name(entries, #[trigger] cp.marker_files[k]),
    }
}

/// The rule that a custom pattern stands for.
pub open spec fn custom_rule(cp: CustomPatternView) -> RuleView {
    RuleView { source: RuleSource::Custom, pattern: cp.directory, name: Some(cp.name) }
}

/// The rules of the first `n` custom patterns that apply to the listing, in order.
pub open spec fn custom_rules(custom: Seq<CustomPatternView>, entries: Seq<DirEntry>, n: int) -> Seq<
    RuleView,
>
    decreases n,
{
    if n <= 0 {
        seq![]
    } else {
        let prev = custom_rules(custom, entries, n - 1);
        if marker_gate(custom[n - 1], entries) {
            prev.push(custom_rule(custom[n - 1]))
        } else {
            prev
        }
    }
}

/// The rule that a built-in pattern stands for.
pub open spec fn builtin_rule(pattern: Seq<char>) -> RuleView {
    RuleView { source: RuleSource::Builtin, pattern, name: None }
}

/// The rules of the built-in patterns, in order.
pub open spec fn builtin_rules(patterns: Seq<Seq<char>>) -> Seq<RuleView> {
    Seq::new(patterns.len(), |i: int| builtin_rule(patterns[i]))
}

/// The rule that a pattern from an ignore file stands for.
pub open spec fn ignore_rule(pattern: Seq<char>) -> RuleView {
    RuleView { source: RuleSource::Gitignore, pattern, name: None }
}

/// The rules of the first `n` ignore-file patterns: each pattern once, and
/// none whose text is already among the built-in ones.
pub open spec fn ignore_rules(patterns: Seq<Seq<char>>, builtin: Seq<Seq<char>>, n: int) -> Seq<
    RuleView,
>
    decreases n,
{
    if n <= 0 {
        seq![]
    } else {
        let prev = ignore_rules(patterns, builtin, n - 1);
        let p = patterns[n - 1];
        if builtin.contains(p) || patterns.subrange(0, n - 1).contains(p) {
            prev
        } else {
            prev.push(ignore_rule(p))
        }
    }
}

/// The rules that come with an ecosystem: its built-in patterns, then those
/// of the project's ignore file.
pub open spec fn ecosystem_rules(ignore: Option<Seq<char>>, t: Option<ProjectType>) -> Seq<
    RuleView,
> {
    match t {
        None => seq![],
        Some(eco) => builtin_rules(builtin_patterns(eco)) + (match ignore {
            Some(content) => ignore_rules(
                ignore_patterns(content),
                builtin_patterns(eco),
                ignore_patterns(content).len() as int,
            ),
            None => seq![],
        }),
    }
}

/// All rules for one project root, in order of precedence: the custom
/// patterns that apply to the root, the built-in patterns of its ecosystem,
/// the patterns of its ignore file.
pub open spec fn registry(
    custom: Seq<CustomPatternView>,
    entries: Seq<DirEntry>,
    ignore: Option<Seq<char>>,
    t: Option<ProjectType>,
) -> Seq<RuleView> {
    custom_rules(custom, entries, custom.len() as int) + ecosystem_rules(ignore, t)
}

/// Whether a pattern speaks of a path (it holds a separator) rather than of a
/// bare directory name.
pub open spec fn path_relative(pattern: Seq<char>) -> bool {
    pattern.contains('/')
}

/// Whether a rule matches a directory with the given name and path relative
/// to the project root. A pattern without a separator is held against the
/// name, one with a separator against the relative path.
pub open spec fn rule_hits(rule: RuleView, basename: Seq<char>, relative: Seq<char>) -> bool {
    if path_relative(rule.pattern) {
        glob_hits(rule.pattern, relative)
    } else {
        glob_hits(rule.pattern, basename)
    }
}

/// The first rule at or after position `from` that matches.
pub open spec fn first_hit(
    rules: Seq<RuleView>,
    basename: Seq<char>,
    relative: Seq<char>,
    from: int,
) -> Option<RuleView>
    decreases rules.len() - from,
{
    if from < 0 || from >= rules.len() {
        None
    } else if rule_hits(rules[from], basename, relative) {
        Some(rules[from])
    } else {
        first_hit(rules, basename, relative, from + 1)
    }
}

/// The position of a rule source in the order of precedence
/// `Custom > Builtin > Gitignore > Heuristic`; smaller is stronger.
pub open spec fn source_rank(s: RuleSource) -> int {
    match s {
        RuleSource::Custom => 0,
        RuleSource::Builtin => 1,
        RuleSource::Gitignore => 2,
        RuleSource::Heuristic => 3,
    }
}

/// The contents of a list of rules, in order.
pub open spec fn rule_views(v: Seq<MatchedRule>) -> Seq<RuleView> {
    Seq::new(v.len(), |i: int| v[i]@)
}

/// Whether the rules stand in order of precedence.
pub open spec fn ordered_by_precedence(rules: Seq<RuleView>) -> bool {
    forall|i: int, j: int|
        0 <= i <= j < rules.len() ==> source_rank((#[trigger] rules[i]).source) <= source_rank(
            (#[trigger] rules[j]).source,
        )
}

/// Whether the custom pattern applies to a project root with this listing.
pub fn custom_applies(cp: &CustomPattern, entries: &Vec<DirEntry>) -> (applies: bool)
    ensures
        applies == marker_gate(cp@, entries@),
{
    let mut k: usize = 0;
    match cp.marker_mode {
        MarkerMode::AnyOf => {
            while k < cp.marker_files.len()
                invariant
                    k <= cp.marker_files.len(),
                    cp.marker_mode == MarkerMode::AnyOf,
                    forall|m: int|
                        0 <= m < k ==> !has_name(entries@, #[trigger] cp@.marker_files[m]),
                decreases cp.marker_files.len() - k,
            {
                if has_entry(entries, cp.marker_files[k].as_str()) {
                    assert(has_name(entries@, cp@.marker_files[k as int]));
                    return true;
                }
                k += 1;
            }
            false
        },
        MarkerMode::AllOf => {
            while k < cp.marker_files.len()
                invariant
                    k <= cp.marker_files.len(),
                    cp.marker_mode == MarkerMode::AllOf,
                    forall|m: int|
                        0 <= m < k ==> has_name(entries@, #[trigger] cp@.marker_files[m]),
                decreases cp.marker_files.len() - k,
            {
                if !has_entry(entries, cp.marker_files[k].as_str()) {
                    assert(!has_name(entries@, cp@.marker_files[k as int]));
                    return false;
                }
                k += 1;
            }
            true
        },
    }
}

/// Whether one of the built-in patterns spells `text`.
fn builtin_has(list: &Vec<&'static str>, text: &str) -> (found: bool)
    ensures
        found == texts(list@).contains(text@),
{
    let wanted = to_chars(text);
    let mut i: usize = 0;
    while i < list.len()
        invariant
            i <= list.len(),
            wanted@ == text@,
            forall|k: int| 0 <= k < i ==> texts(list@)[k] != text@,
        decreases list.len() - i,
    {
        if chars_eq_str(&wanted, list[i]) {
            assert(texts(list@)[i as int] == text@);
            return true;
        }
        i += 1;
    }
    false
}

/// The compiled rules of one project root.
#[derive(Debug)]
pub struct Matcher {
    /// The ecosystem of the project root, if one was detected.
    pub ecosystem: Option<ProjectType>,
    /// The rules, strongest first.
    pub rules: Vec<MatchedRule>,
}

impl Matcher {
    /// The rules for a project root of ecosystem `project_type` with the given
    /// listing and ignore file, under the configured custom patterns.
    pub fn build(
        project_type: Option<ProjectType>,
        entries: &Vec<DirEntry>,
        ignore_file: &Option<String>,
        custom: &Vec<CustomPattern>,
    ) -> (m: Matcher)
        ensures
            m.ecosystem == project_type,
            rule_views(m.rules@) == registry(
                pattern_views(custom@),
                entries@,
                crate::text::opt_text(*ignore_file),
                project_type,
            ),
    {
        let mut rules: Vec<MatchedRule> = Vec::new();
        let mut i: usize = 0;
        while i < custom.len()
            invariant
                i <= custom.len(),
                rule_views(rules@) == custom_rules(pattern_views(custom@), entries@, i as int),
            decreases custom.len() - i,
        {
            let ghost before = rule_views(rules@);
            if custom_applies(&custom[i], entries) {
                rules.push(
                    MatchedRule {
                        source: RuleSource::Custom,
                        pattern: copy_string(&custom[i].directory),
                        name: Some(copy_string(&custom[i].name)),
                    },
                );
                assert(rule_views(rules@) =~= before.push(custom_rule(custom@[i as int]@)));
            }
            i += 1;
        }
        let ghost custom_part = rule_views(rules@);
        match project_type {
            None => {
                assert(rule_views(rules@) =~= custom_part + seq![]);
            },
            Some(eco) => {
                let builtin = ProjectDetector::cleanable_dirs(eco);
                let mut j: usize = 0;
                assert(rule_views(rules@) =~= custom_part + builtin_rules(
                    builtin_patterns(eco),
                ).subrange(0, 0));
                while j < builtin.len()
                    invariant
                        j <= builtin.len(),
                        texts(builtin@) == builtin_patterns(eco),
                        rule_views(rules@) == custom_part + builtin_rules(
                            builtin_patterns(eco),
                        ).subrange(0, j as int),
                    decreases builtin.len() - j,
                {
                    let ghost before = rule_views(rules@);
                    let pattern = builtin[j].to_owned();
                    assert(pattern@ == texts(builtin@)[j as int]);
                    rules.push(MatchedRule { source: RuleSource::Builtin, pattern, name: None });
                    assert(rule_views(rules@) =~= before.push(
                        builtin_rule(builtin_patterns(eco)[j as int]),
                    ));
                    assert(rule_views(rules@) =~= custom_part + builtin_rules(
                        builtin_patterns(eco),
                    ).subrange(0, j + 1));
                    j += 1;
                }
                let ghost fixed = custom_part + builtin_rules(builtin_patterns(eco));
                assert(rule_views(rules@) =~= fixed);
                match ignore_file {
                    None => {
                        assert(rule_views(rules@) =~= custom_part + (builtin_rules(
                            builtin_patterns(eco),
                        ) + seq![]));
                    },
                    Some(content) => {
                        let pats = parse_ignore_file(content.as_str());
                        let ghost ptexts = string_texts(pats@);
                        let mut k: usize = 0;
                        assert(rule_views(rules@) =~= fixed + ignore_rules(
                            ptexts,
                            builtin_patterns(eco),
                            0,
                        ));
                        while k < pats.len()
                            invariant
                                k <= pats.len(),
                                ptexts == string_texts(pats@),
                                texts(builtin@) == builtin_patterns(eco),
                                rule_views(rules@) == fixed + ignore_rules(
                                    ptexts,
                                    builtin_patterns(eco),
                                    k as int,
                                ),
                            decreases pats.len() - k,
                        {
                            let ghost before = rule_views(rules@);
                            let known = builtin_has(&builtin, pats[k].as_str()) || text_in_list(
                                &pats,
                                k,
                                pats[k].as_str(),
                            );
                            assert(ptexts[k as int] == pats@[k as int]@);
                            if !known {
                                rules.push(
                                    MatchedRule {
                                        source: RuleSource::Gitignore,
                                        pattern: copy_string(&pats[k]),
                                        name: None,
                                    },
                                );
                                assert(rule_views(rules@) =~= before.push(
                                    ignore_rule(ptexts[k as int]),
                                ));
                                assert(rule_views(rules@) =~= fixed + ignore_rules(
                                    ptexts,
                                    builtin_patterns(eco),
                                    k + 1,
                                ));
                            }
                            k += 1;
                        }
                        assert(rule_views(rules@) =~= custom_part + (builtin_rules(
                            builtin_patterns(eco),
                        ) + ignore_rules(ptexts, builtin_patterns(eco), ptexts.len() as int)));
                    },
                }
            },
        }
        Matcher { ecosystem: project_type, rules }
    }

    /// The strongest rule that matches a directory called `basename` that lies
    /// at `relative_path` below the project root.
    pub fn matched_rule(&self, basename: &str, relative_path: &str) -> (hit: Option<MatchedRule>)
        ensures
            opt_rule(hit) == first_hit(rule_views(self.rules@), basename@, relative_path@, 0),
    {
        let ghost rules = rule_views(self.rules@);
        let mut k: usize = 0;
        while k < self.rules.len()
            invariant
                k <= self.rules.len(),
                rules == rule_views(self.rules@),
                first_hit(rules, basename@, relative_path@, 0) == first_hit(
                    rules,
                    basename@,
                    relative_path@,
                    k as int,
                ),
            decreases self.rules.len() - k,
        {
            let rule = &self.rules[k];
            assert(rules[k as int] == rule@);
            let pattern = to_chars(rule.pattern.as_str());
            let hit = if chars_contain(&pattern, '/') {
                pattern_matches(rule.pattern.as_str(), relative_path)
            } else {
                pattern_matches(rule.pattern.as_str(), basename)
            };
            if hit {
                return Some(rule.duplicate());
            }
            k += 1;
        }
        None
    }

    /// Whether any rule matches the directory.
    pub fn matches(&self, basename: &str, relative_path: &str) -> (hit: bool)
        ensures
            hit == (first_hit(rule_views(self.rules@), basename@, relative_path@, 0) is Some),
    {
        self.matched_rule(basename, relative_path).is_some()
    }
}

/// Every rule made from custom patterns has the source `Custom`.
proof fn lemma_custom_rules_sources(custom: Seq<CustomPatternView>, entries: Seq<DirEntry>, n: int)
    ensures
        forall|i: int|
            0 <= i < custom_rules(custom, entries, n).len() ==> (#[trigger] custom_rules(
                custom,
                entries,
                n,
            )[i]).source == RuleSource::Custom,
    decreases n,
{
    if n > 0 {
        lemma_custom_rules_sources(custom, entries, n - 1);
    }
}

/// Every rule made from an ignore file has the source `Gitignore`.
proof fn lemma_ignore_rules_sources(patterns: Seq<Seq<char>>, builtin: Seq<Seq<char>>, n: int)
    ensures
        forall|i: int|
            0 <= i < ignore_rules(patterns, builtin, n).len() ==> (#[trigger] ignore_rules(
                patterns,
                builtin,
                n,
            )[i]).source == RuleSource::Gitignore,
    decreases n,
{
    if n > 0 {
        lemma_ignore_rules_sources(patterns, builtin, n - 1);
    }
}

/// The rules of a project root stand in order of precedence: custom rules
/// first, then built-in ones, then those of the ignore file.
pub proof fn lemma_registry_ordered(
    custom: Seq<CustomPatternView>,
    entries: Seq<DirEntry>,
    ignore: Option<Seq<char>>,
    t: Option<ProjectType>,
)
    ensures
        ordered_by_precedence(registry(custom, entries, ignore, t)),
{
    lemma_custom_rules_sources(custom, entries, custom.len() as int);
    match t {
        None => {},
        Some(eco) => {
            match ignore {
                Some(content) => {
                    lemma_ignore_rules_sources(
                        ignore_patterns(content),
                        builtin_patterns(eco),
                        ignore_patterns(content).len() as int,
                    );
                },
                None => {},
            }
        },
    }
}

/// The first matching rule of a list in order of precedence is at least as
/// strong as every rule of the list that matches, and there is one as soon as
/// any rule matches.
pub proof fn lemma_first_hit_is_strongest(
    rules: Seq<RuleView>,
    basename: Seq<char>,
    relative: Seq<char>,
    from: int,
)
    requires
        ordered_by_precedence(rules),
        0 <= from,
    ensures
        forall|j: int|
            from <= j < rules.len() && rule_hits(#[trigger] rules[j], basename, relative) ==> {
                &&& first_hit(rules, basename, relative, from) is Some
                &&& source_rank(first_hit(rules, basename, relative, from)->0.source)
                    <= source_rank(rules[j].source)
            },
        first_hit(rules, basename, relative, from) is Some ==> rule_hits(
            first_hit(rules, basename, relative, from)->0,
            basename,
            relative,
        ),
    decreases rules.len() - from,
{
    if from < rules.len() && !rule_hits(rules[from], basename, relative) {
        lemma_first_hit_is_strongest(rules, basename, relative, from + 1);
    }
}

/// Rule precedence: where a custom pattern that applies to the project root
/// matches a directory, the rule reported for the directory is a custom one,
/// whatever built-in or ignore-file patterns match as well.
pub proof fn lemma_custom_rule_wins(
    custom: Seq<CustomPatternView>,
    entries: Seq<DirEntry>,
    ignore: Option<Seq<char>>,
    t: Option<ProjectType>,
    basename: Seq<char>,
    relative: Seq<char>,
    k: int,
)
    requires
        0 <= k < custom.len(),
        marker_gate(custom[k], entries),
        rule_hits(custom_rule(custom[k]), basename, relative),
    ensures
        first_hit(registry(custom, entries, ignore, t), basename, relative, 0) is Some,
        first_hit(registry(custom, entries, ignore, t), basename, relative, 0)->0.source
            == RuleSource::Custom,
{
    let rules = registry(custom, entries, ignore, t);
    lemma_registry_ordered(custom, entries, ignore, t);
    lemma_custom_rule_present(custom, entries, custom.len() as int, k);
    let c = custom_rules(custom, entries, custom.len() as int);
    let j = choose|j: int| 0 <= j < c.len() && c[j] == custom_rule(custom[k]);
    assert(rules[j] == c[j]);
    lemma_first_hit_is_strongest(rules, basename, relative, 0);
}

/// A custom pattern that applies to the listing has its rule among the custom rules.
proof fn lemma_custom_rule_present(
    custom: Seq<CustomPatternView>,
    entries: Seq<DirEntry>,
    n: int,
    k: int,
)
    requires
        0 <= k < n <= custom.len(),
        marker_gate(custom[k], entries),
    ensures
        exists|j: int|
            0 <= j < custom_rules(custom, entries, n).len() && custom_rules(custom, entries, n)[j]
                == custom_rule(custom[k]),
    decreases n,
{
    let c = custom_rules(custom, entries, n);
    if k == n - 1 {
        assert(c[c.len() - 1] == custom_rule(custom[k]));
    } else {
        lemma_custom_rule_present(custom, entries, n - 1, k);
        let prev = custom_rules(custom, entries, n - 1);
        let j = choose|j: int| 0 <= j < prev.len() && prev[j] == custom_rule(custom[k]);
        assert(c[j] == custom_rule(custom[k]));
    }
}

/// A rule is held against one text only: a pattern without a separator
/// against the name of the directory, whatever its path, and a pattern with
/// a separator against the relative path, whatever its name.
pub proof fn lemma_rule_reads_one_text(
    rule: RuleView,
    basename: Seq<char>,
    relative: Seq<char>,
    other: Seq<char>,
)
    ensures
        path_relative(rule.pattern) ==> rule_hits(rule, basename, relative) == rule_hits(
            rule,
            other,
            relative,
        ),
        !path_relative(rule.pattern) ==> rule_hits(rule, basename, relative) == rule_hits(
            rule,
            basename,
            other,
        ),
{
}

/// A rule that does not match is as good as absent: taking it out of the
/// list leaves the answer for the directory as it is. This holds of every
/// rule whose pattern cannot be built, since such a pattern matches nothing.
pub proof fn lemma_silent_rule_is_inert(
    rules: Seq<RuleView>,
    k: int,
    basename: Seq<char>,
    relative: Seq<char>,
    from: int,
)
    requires
        0 <= from <= k < rules.len(),
        !rule_hits(rules[k], basename, relative),
    ensures
        first_hit(rules, basename, relative, from) == first_hit(
            rules.remove(k),
            basename,
            relative,
            from,
        ),
    decreases k - from,
{
    let less = rules.remove(k);
    if from < k {
        assert(less[from] == rules[from]);
        if !rule_hits(rules[from], basename, relative) {
            lemma_silent_rule_is_inert(rules, k, basename, relative, from + 1);
        }
    } else {
        lemma_same_tail(rules, less, basename, relative, k + 1, k);
    }
}

/// Two lists that agree from some positions on give the same first match
/// from there.
proof fn lemma_same_tail(
    a: Seq<RuleView>,
    b: Seq<RuleView>,
    basename: Seq<char>,
    relative: Seq<char>,
    i: int,
    j: int,
)
    requires
        0 <= i,
        0 <= j,
        a.len() - i == b.len() - j,
        forall|k: int| i <= k < a.len() ==> #[trigger] a[k] == b[k - i + j],
    ensures
        first_hit(a, basename, relative, i) == first_hit(b, basename, relative, j),
    decreases a.len() - i,
{
    if i < a.len() {
        assert(a[i] == b[j]);
        if !rule_hits(a[i], basename, relative) {
            lemma_same_tail(a, b, basename, relative, i + 1, j + 1);
        }
    }
}

/// A pattern that cannot be built matches nothing.
pub proof fn lemma_unbuildable_pattern_is_silent(
    rule: RuleView,
    basename: Seq<char>,
    relative: Seq<char>,
)
    requires
        crate::glob::glob_verdict(rule.pattern, basename) is None,
        crate::glob::glob_verdict(rule.pattern, relative) is None,
    ensures
        !rule_hits(rule, basename, relative),
{
}

} // verus!
