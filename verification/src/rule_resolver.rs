//! The settings that apply to one detector, and to one file: the rule of the
//! configuration, then each override whose file patterns match the file.
//!
//! A rule's options are held as pairs of texts, the YAML of a key and the
//! YAML of its value, in the order their keys first appeared.

use vstd::prelude::*;
use crate::detectors::Severity;
use crate::globs::{glob_match, glob_matches};
use crate::text::{copy_strings, str_eq, str_views};

verus! {

/// How strictly a rule is applied, as a configuration writes it.
#[derive(Debug, Clone, Copy, PartialEq, Eq, Structural)]
pub enum RuleSeverity {
    Off,
    Info,
    Low,
    Warn,
    Medium,
    Error,
    High,
    Critical,
}

/// A rule written out in full; each part that is missing leaves the setting
/// it would change as it was.
pub struct FullRuleConfig {
    pub enabled: Option<bool>,
    pub severity: Option<RuleSeverity>,
    pub exclude: Vec<String>,
    /// The options where the configuration gives a mapping, as (key, value)
    /// pairs of YAML text; `None` where it gives anything else.
    pub options: Option<Vec<(String, String)>>,
}

/// A rule: a severity alone, or written out in full.
pub enum RuleConfig {
    Short(RuleSeverity),
    Full(FullRuleConfig),
}

/// Rules that apply to the files that match any of `files`.
pub struct RuleOverride {
    pub files: Vec<String>,
    pub rules: Vec<(String, RuleConfig)>,
}

/// The rules of a configuration, by detector, and its overrides in order.
pub struct RulesConfig {
    pub rules: Vec<(String, RuleConfig)>,
    pub overrides: Vec<RuleOverride>,
}

/// The settings that apply to one detector.
pub struct ResolvedRuleConfig {
    pub enabled: bool,
    pub severity: Severity,
    pub exclude: Vec<String>,
    /// (key, value) pairs of YAML text, each key once.
    pub options: Vec<(String, String)>,
}

/// The settings as they are resolved: enabled, severity, excludes, options.
pub type RuleState = (bool, Severity, Seq<Seq<char>>, Seq<(Seq<char>, Seq<char>)>);

/// The text views of option pairs.
pub open spec fn option_views(o: Seq<(String, String)>) -> Seq<(Seq<char>, Seq<char>)> {
    o.map_values(|p: (String, String)| (p.0@, p.1@))
}

/// What a severity does to whether the rule is enabled and to its severity.
pub open spec fn severity_effect(s: RuleSeverity, enabled: bool, severity: Severity) -> (bool, Severity) {
    match s {
        RuleSeverity::Off => (false, severity),
        RuleSeverity::Info | RuleSeverity::Low => (true, Severity::Low),
        RuleSeverity::Warn | RuleSeverity::Medium => (true, Severity::Medium),
        RuleSeverity::Error | RuleSeverity::High => (true, Severity::High),
        RuleSeverity::Critical => (true, Severity::Critical),
    }
}

/// `opts` with the value of key `k` set to `v`: in place where `k` is there,
/// else added at the end.
pub open spec fn insert_option(opts: Seq<(Seq<char>, Seq<char>)>, k: Seq<char>, v: Seq<char>) -> Seq<(Seq<char>, Seq<char>)>
    decreases opts.len(),
{
    if opts.len() == 0 {
        seq![(k, v)]
    } else if opts[0].0 == k {
        opts.update(0, (k, v))
    } else {
        seq![opts[0]] + insert_option(opts.drop_first(), k, v)
    }
}

/// `opts` with each pair of `more` set in turn.
pub open spec fn extend_options(opts: Seq<(Seq<char>, Seq<char>)>, more: Seq<(Seq<char>, Seq<char>)>) -> Seq<(Seq<char>, Seq<char>)>
    decreases more.len(),
{
    if more.len() == 0 {
        opts
    } else {
        insert_option(extend_options(opts, more.drop_last()), more.last().0, more.last().1)
    }
}

/// What applying the rule `rc` does to the settings `st`.
pub open spec fn apply_rule(rc: RuleConfig, st: RuleState) -> RuleState {
    match rc {
        RuleConfig::Short(s) => {
            let (e, sev) = severity_effect(s, st.0, st.1);
            (e, sev, st.2, st.3)
        },
        RuleConfig::Full(full) => {
            let e0 = match full.enabled {
                Some(e) => e,
                None => st.0,
            };
            let (e1, sev1) = match full.severity {
                Some(s) => severity_effect(s, e0, st.1),
                None => (e0, st.1),
            };
            let ex = if full.exclude@.len() > 0 { str_views(full.exclude@) } else { st.2 };
            let opts = match full.options {
                Some(m) => extend_options(st.3, option_views(m@)),
                None => st.3,
            };
            (e1, sev1, ex, opts)
        },
    }
}

/// The rule of `rules` for `id`: the first entry with that name.
pub open spec fn rule_for(rules: Seq<(String, RuleConfig)>, id: Seq<char>) -> Option<RuleConfig>
    decreases rules.len(),
{
    if rules.len() == 0 {
        None
    } else if rules[0].0@ == id {
        Some(rules[0].1)
    } else {
        rule_for(rules.drop_first(), id)
    }
}

/// Whether `path` matches one of `patterns`; a pattern that does not compile
/// matches nothing.
pub open spec fn matches_any(patterns: Seq<String>, path: Seq<char>) -> bool {
    exists|k: int| 0 <= k < patterns.len() && glob_matches(#[trigger] patterns[k]@, path)
}

/// The settings after the overrides of `ovs`, in order, that match `path` and
/// have a rule for `id`.
pub open spec fn apply_overrides(ovs: Seq<RuleOverride>, id: Seq<char>, path: Seq<char>, st: RuleState) -> RuleState
    decreases ovs.len(),
{
    if ovs.len() == 0 {
        st
    } else {
        let prev = apply_overrides(ovs.drop_last(), id, path, st);
        let ov = ovs.last();
        if matches_any(ov.files@, path) {
            match rule_for(ov.rules@, id) {
                Some(rc) => apply_rule(rc, prev),
                None => prev,
            }
        } else {
            prev
        }
    }
}

/// The settings resolved for detector `id` and, where given, the file `path`:
/// enabled at medium severity with nothing excluded and no options; then the
/// configuration's rule for `id`; then the matching overrides.
pub open spec fn resolved_state(config: RulesConfig, id: Seq<char>, path: Option<Seq<char>>) -> RuleState {
    let start: RuleState = (true, Severity::Medium, Seq::empty(), Seq::empty());
    let base = match rule_for(config.rules@, id) {
        Some(rc) => apply_rule(rc, start),
        None => start,
    };
    match path {
        Some(p) => apply_overrides(config.overrides@, id, p, base),
        None => base,
    }
}

/// The settings of a resolved rule, as a state.
pub open spec fn state_of(r: ResolvedRuleConfig) -> RuleState {
    (r.enabled, r.severity, str_views(r.exclude@), option_views(r.options@))
}

/// Whether each key occurs once among `o`.
pub open spec fn keys_unique(o: Seq<(Seq<char>, Seq<char>)>) -> bool {
    forall|i: int, j: int| 0 <= i < j < o.len() ==> o[i].0 != o[j].0
}

/// Setting option `k` to `v` keeps each key once, gives `k` the value `v`,
/// and keeps the pair of every other key.
pub proof fn lemma_insert_option(o: Seq<(Seq<char>, Seq<char>)>, k: Seq<char>, v: Seq<char>)
    requires
        keys_unique(o),
    ensures
        keys_unique(insert_option(o, k, v)),
        insert_option(o, k, v).contains((k, v)),
        forall|i: int| 0 <= i < o.len() && o[i].0 != k ==> insert_option(o, k, v).contains(#[trigger] o[i]),
        forall|x: (Seq<char>, Seq<char>)| #[trigger] insert_option(o, k, v).contains(x) ==> x == (k, v) || (o.contains(x) && x.0 != k),
    decreases o.len(),
{
    let r = insert_option(o, k, v);
    if o.len() == 0 {
        assert(r[0] == (k, v));
    } else if o[0].0 == k {
        assert(r[0] == (k, v));
        assert forall|i: int| 0 <= i < o.len() && o[i].0 != k implies r.contains(#[trigger] o[i]) by {
            assert(r[i] == o[i]);
        }
        assert forall|x: (Seq<char>, Seq<char>)| #[trigger] r.contains(x) implies x == (k, v) || (o.contains(x) && x.0 != k) by {
            let i = choose|i: int| 0 <= i < r.len() && r[i] == x;
            if i != 0 {
                assert(o[i] == x);
                assert(o[0].0 != o[i].0);
            }
        }
    } else {
        let t = o.drop_first();
        assert(keys_unique(t)) by {
            assert forall|i: int, j: int| 0 <= i < j < t.len() implies t[i].0 != t[j].0 by {
                assert(t[i] == o[i + 1] && t[j] == o[j + 1]);
            }
        }
        lemma_insert_option(t, k, v);
        let rt = insert_option(t, k, v);
        assert(r == seq![o[0]] + rt);
        assert(!rt.contains(o[0])) by {
            if rt.contains(o[0]) {
                let j = choose|j: int| 0 <= j < rt.len() && rt[j] == o[0];
                assert(rt.contains(rt[j]));
                assert(t.contains(o[0]));
                let m = choose|m: int| 0 <= m < t.len() && t[m] == o[0];
                assert(o[m + 1].0 == o[0].0);
            }
        }
        assert forall|i: int, j: int| 0 <= i < j < r.len() implies r[i].0 != r[j].0 by {
            if i == 0 {
                assert(r[j] == rt[j - 1]);
                assert(rt.contains(rt[j - 1]));
                if rt[j - 1] != (k, v) {
                    assert(t.contains(rt[j - 1]));
                    let m = choose|m: int| 0 <= m < t.len() && t[m] == rt[j - 1];
                    assert(o[m + 1] == rt[j - 1]);
                }
            } else {
                assert(r[i] == rt[i - 1] && r[j] == rt[j - 1]);
            }
        }
        assert(rt.contains((k, v)));
        let q = choose|q: int| 0 <= q < rt.len() && rt[q] == (k, v);
        assert(r[q + 1] == (k, v));
        assert forall|i: int| 0 <= i < o.len() && o[i].0 != k implies r.contains(#[trigger] o[i]) by {
            if i == 0 {
                assert(r[0] == o[0]);
            } else {
                assert(o[i] == t[i - 1]);
                assert(rt.contains(t[i - 1]));
                let m = choose|m: int| 0 <= m < rt.len() && rt[m] == t[i - 1];
                assert(r[m + 1] == o[i]);
            }
        }
        assert forall|x: (Seq<char>, Seq<char>)| #[trigger] r.contains(x) implies x == (k, v) || (o.contains(x) && x.0 != k) by {
            let i = choose|i: int| 0 <= i < r.len() && r[i] == x;
            if i == 0 {
                assert(o[0] == x);
            } else {
                assert(rt[i - 1] == x);
                assert(rt.contains(x));
                if x != (k, v) {
                    let m = choose|m: int| 0 <= m < t.len() && t[m] == x;
                    assert(o[m + 1] == x);
                }
            }
        }
    }
}

proof fn lemma_extend_unique(o: Seq<(Seq<char>, Seq<char>)>, more: Seq<(Seq<char>, Seq<char>)>)
    requires
        keys_unique(o),
    ensures
        keys_unique(extend_options(o, more)),
    decreases more.len(),
{
    if more.len() > 0 {
        lemma_extend_unique(o, more.drop_last());
        lemma_insert_option(extend_options(o, more.drop_last()), more.last().0, more.last().1);
    }
}

proof fn lemma_overrides_unique(ovs: Seq<RuleOverride>, id: Seq<char>, path: Seq<char>, st: RuleState)
    requires
        keys_unique(st.3),
    ensures
        keys_unique(apply_overrides(ovs, id, path, st).3),
    decreases ovs.len(),
{
    if ovs.len() > 0 {
        lemma_overrides_unique(ovs.drop_last(), id, path, st);
        let prev = apply_overrides(ovs.drop_last(), id, path, st);
        if let Some(RuleConfig::Full(full)) = rule_for(ovs.last().rules@, id) {
            if let Some(m) = full.options {
                lemma_extend_unique(prev.3, option_views(m@));
            }
        }
    }
}

/// However the rules and overrides are written, the resolved options hold
/// each key once.
pub proof fn lemma_resolved_options_unique(config: RulesConfig, id: Seq<char>, path: Option<Seq<char>>)
    ensures
        keys_unique(resolved_state(config, id, path).3),
{
    let start: RuleState = (true, Severity::Medium, Seq::empty(), Seq::empty());
    if let Some(RuleConfig::Full(full)) = rule_for(config.rules@, id) {
        if let Some(m) = full.options {
            lemma_extend_unique(start.3, option_views(m@));
        }
    }
    let base = match rule_for(config.rules@, id) {
        Some(rc) => apply_rule(rc, start),
        None => start,
    };
    if let Some(p) = path {
        lemma_overrides_unique(config.overrides@, id, p, base);
    }
}

proof fn lemma_insert_at(opts: Seq<(Seq<char>, Seq<char>)>, k: Seq<char>, v: Seq<char>, i: int)
    requires
        0 <= i < opts.len(),
        opts[i].0 == k,
        forall|j: int| 0 <= j < i ==> opts[j].0 != k,
    ensures
        insert_option(opts, k, v) == opts.update(i, (k, v)),
    decreases i,
{
    if i > 0 {
        lemma_insert_at(opts.drop_first(), k, v, i - 1);
        assert(opts.update(i, (k, v)) =~= seq![opts[0]] + opts.drop_first().update(i - 1, (k, v)));
    }
}

proof fn lemma_insert_absent(opts: Seq<(Seq<char>, Seq<char>)>, k: Seq<char>, v: Seq<char>)
    requires
        forall|j: int| 0 <= j < opts.len() ==> opts[j].0 != k,
    ensures
        insert_option(opts, k, v) == opts.push((k, v)),
    decreases opts.len(),
{
    if opts.len() > 0 {
        lemma_insert_absent(opts.drop_first(), k, v);
        assert(opts.push((k, v)) =~= seq![opts[0]] + opts.drop_first().push((k, v)));
    }
}

/// Sets key `k` to `v` in `opts`.
fn insert_option_pair(opts: &mut Vec<(String, String)>, k: String, v: String)
    ensures
        option_views(final(opts)@) == insert_option(option_views(old(opts)@), k@, v@),
{
    let ghost ov = option_views(opts@);
    let mut i: usize = 0;
    while i < opts.len()
        invariant
            i <= opts@.len(),
            ov == option_views(opts@),
            opts@ == old(opts)@,
            forall|j: int| 0 <= j < i ==> ov[j].0 != k@,
        decreases opts@.len() - i,
    {
        if str_eq(opts[i].0.as_str(), k.as_str()) {
            proof {
                assert(ov[i as int].0 == k@);
                lemma_insert_at(ov, k@, v@, i as int);
            }
            let ghost kv = k@;
            let ghost vv = v@;
            opts.set(i, (k, v));
            proof {
                assert(option_views(opts@) =~= ov.update(i as int, (kv, vv)));
            }
            return;
        }
        i = i + 1;
    }
    proof {
        lemma_insert_absent(ov, k@, v@);
    }
    let ghost kv = k@;
    let ghost vv = v@;
    opts.push((k, v));
    assert(option_views(opts@) =~= ov.push((kv, vv)));
}

impl ResolvedRuleConfig {
    /// Applies the severity `rule_severity`: `Off` disables the rule; any
    /// other enables it at the matching severity.
    pub fn apply_severity(rule_severity: RuleSeverity, enabled: &mut bool, severity: &mut Severity)
        ensures
            (*final(enabled), *final(severity)) == severity_effect(rule_severity, *old(enabled), *old(severity)),
    {
        match rule_severity {
            RuleSeverity::Off => {
                *enabled = false;
            },
            RuleSeverity::Info | RuleSeverity::Low => {
                *enabled = true;
                *severity = Severity::Low;
            },
            RuleSeverity::Warn | RuleSeverity::Medium => {
                *enabled = true;
                *severity = Severity::Medium;
            },
            RuleSeverity::Error | RuleSeverity::High => {
                *enabled = true;
                *severity = Severity::High;
            },
            RuleSeverity::Critical => {
                *enabled = true;
                *severity = Severity::Critical;
            },
        }
    }

    /// Applies the rule `config` to the settings.
    pub fn apply_config(
        config: &RuleConfig,
        enabled: &mut bool,
        severity: &mut Severity,
        exclude: &mut Vec<String>,
        options: &mut Vec<(String, String)>,
    )
        ensures
            (*final(enabled), *final(severity), str_views(final(exclude)@), option_views(final(options)@)) == apply_rule(
                *config,
                (*old(enabled), *old(severity), str_views(old(exclude)@), option_views(old(options)@)),
            ),
    {
        match config {
            RuleConfig::Short(s) => {
                Self::apply_severity(*s, enabled, severity);
            },
            RuleConfig::Full(full) => {
                if let Some(e) = full.enabled {
                    *enabled = e;
                }
                if let Some(s) = full.severity {
                    Self::apply_severity(s, enabled, severity);
                }
                if full.exclude.len() > 0 {
                    *exclude = copy_strings(&full.exclude);
                }
                if let Some(m) = &full.options {
                    let ghost mv = option_views(m@);
                    let ghost start = option_views(options@);
                    let mut i: usize = 0;
                    assert(mv.take(0) =~= Seq::<(Seq<char>, Seq<char>)>::empty());
                    while i < m.len()
                        invariant
                            i <= m@.len(),
                            mv == option_views(m@),
                            option_views(options@) == extend_options(start, mv.take(i as int)),
                        decreases m@.len() - i,
                    {
                        let k = m[i].0.clone();
                        let v = m[i].1.clone();
                        insert_option_pair(options, k, v);
                        proof {
                            assert(mv.take(i + 1).drop_last() =~= mv.take(i as int));
                            assert(mv.take(i + 1).last() == mv[i as int]);
                        }
                        i = i + 1;
                    }
                    assert(mv.take(m@.len() as int) =~= mv);
                }
            },
        }
    }

    /// Whether `path` matches one of `patterns`.
    pub fn matches_path(path: &str, patterns: &Vec<String>) -> (r: bool)
        ensures
            r == matches_any(patterns@, path@),
    {
        let mut k: usize = 0;
        while k < patterns.len()
            invariant
                k <= patterns@.len(),
                forall|j: int| 0 <= j < k ==> !glob_matches(#[trigger] patterns@[j]@, path@),
            decreases patterns@.len() - k,
        {
            if glob_match(patterns[k].as_str(), path) {
                return true;
            }
            k = k + 1;
        }
        false
    }

    /// The rule of `rules` for `id`, if any.
    fn find_rule<'a>(rules: &'a Vec<(String, RuleConfig)>, id: &str) -> (r: Option<&'a RuleConfig>)
        ensures
            match r {
                Some(rc) => rule_for(rules@, id@) == Some(*rc),
                None => rule_for(rules@, id@) is None,
            },
    {
        let ghost rv = rules@;
        let mut i: usize = 0;
        assert(rv.skip(0) =~= rv);
        while i < rules.len()
            invariant
                i <= rules@.len(),
                rv == rules@,
                rule_for(rv, id@) == rule_for(rv.skip(i as int), id@),
            decreases rules@.len() - i,
        {
            if str_eq(rules[i].0.as_str(), id) {
                proof {
                    assert(rv.skip(i as int)[0] == rv[i as int]);
                }
                return Some(&rules[i].1);
            }
            proof {
                assert(rv.skip(i as int).drop_first() =~= rv.skip(i + 1));
            }
            i = i + 1;
        }
        None
    }

    /// The settings for detector `detector_id` and, where given, the file
    /// `file_path`.
    pub fn resolve(config: &RulesConfig, detector_id: &str, file_path: Option<&str>) -> (r: Self)
        ensures
            state_of(r) == resolved_state(
                *config,
                detector_id@,
                match file_path {
                    Some(p) => Some(p@),
                    None => None,
                },
            ),
    {
        let mut enabled = true;
        let mut severity = Severity::Medium;
        let mut exclude: Vec<String> = Vec::new();
        let mut options: Vec<(String, String)> = Vec::new();
        if let Some(rc) = Self::find_rule(&config.rules, detector_id) {
            Self::apply_config(rc, &mut enabled, &mut severity, &mut exclude, &mut options);
        }
        proof {
            assert(str_views(Seq::<String>::empty()) =~= Seq::<Seq<char>>::empty());
            assert(option_views(Seq::<(String, String)>::empty()) =~= Seq::<(Seq<char>, Seq<char>)>::empty());
        }
        let ghost base: RuleState = (enabled, severity, str_views(exclude@), option_views(options@));
        if let Some(path) = file_path {
            let ghost ovs = config.overrides@;
            let mut i: usize = 0;
            while i < config.overrides.len()
                invariant
                    i <= ovs.len(),
                    ovs == config.overrides@,
                    (enabled, severity, str_views(exclude@), option_views(options@)) == apply_overrides(
                        ovs.take(i as int),
                        detector_id@,
                        path@,
                        base,
                    ),
                decreases ovs.len() - i,
            {
                let ov = &config.overrides[i];
                proof {
                    assert(ovs.take(i + 1).drop_last() =~= ovs.take(i as int));
                    assert(ovs.take(i + 1).last() == ovs[i as int]);
                }
                if Self::matches_path(path, &ov.files) {
                    if let Some(rc) = Self::find_rule(&ov.rules, detector_id) {
                        Self::apply_config(rc, &mut enabled, &mut severity, &mut exclude, &mut options);
                    }
                }
                i = i + 1;
            }
            assert(ovs.take(ovs.len() as int) =~= ovs);
        }
        ResolvedRuleConfig { enabled, severity, exclude, options }
    }

    /// The YAML text of option `key`, if the options have it.
    pub fn get_option(&self, key: &str) -> (r: Option<String>)
        ensures
            match r {
                Some(v) => exists|i: int| 0 <= i < self.options@.len() && #[trigger] self.options@[i].0@ == key@ && v@ == self.options@[i].1@
                    && forall|j: int| 0 <= j < i ==> self.options@[j].0@ != key@,
                None => forall|i: int| 0 <= i < self.options@.len() ==> #[trigger] self.options@[i].0@ != key@,
            },
    {
        let mut i: usize = 0;
        while i < self.options.len()
            invariant
                i <= self.options@.len(),
                forall|j: int| 0 <= j < i ==> #[trigger] self.options@[j].0@ != key@,
            decreases self.options@.len() - i,
        {
            if str_eq(self.options[i].0.as_str(), key) {
                return Some(self.options[i].1.clone());
            }
            i = i + 1;
        }
        None
    }
}

/// The severity keywords of a rule: `high` and `error` both give high
/// severity, and only `critical` gives critical; `info` and `low` give low,
/// `warn` and `medium` give medium; each of these enables the rule, whatever
/// it was before, while `off` disables it and leaves its severity as it was.
pub proof fn lemma_rule_severity_keywords(enabled: bool, severity: Severity)
    ensures
        severity_effect(RuleSeverity::High, enabled, severity) == (true, Severity::High),
        severity_effect(RuleSeverity::Error, enabled, severity) == (true, Severity::High),
        severity_effect(RuleSeverity::Critical, enabled, severity) == (true, Severity::Critical),
        severity_effect(RuleSeverity::Info, enabled, severity) == (true, Severity::Low),
        severity_effect(RuleSeverity::Low, enabled, severity) == (true, Severity::Low),
        severity_effect(RuleSeverity::Warn, enabled, severity) == (true, Severity::Medium),
        severity_effect(RuleSeverity::Medium, enabled, severity) == (true, Severity::Medium),
        severity_effect(RuleSeverity::Off, enabled, severity) == (false, severity),
{
}

/// A rule written as a bare keyword, with no file given: the detector is
/// enabled unless the keyword is `off`; `high` and `error` resolve to high
/// severity, `critical` to critical, `info` and `low` to low, `warn` and
/// `medium` to medium, and `off` keeps the default, medium.
pub proof fn lemma_short_rule_resolves(config: RulesConfig, id: Seq<char>, k: RuleSeverity)
    requires
        rule_for(config.rules@, id) == Some(RuleConfig::Short(k)),
    ensures
        resolved_state(config, id, None).0 == (k != RuleSeverity::Off),
        (k == RuleSeverity::High || k == RuleSeverity::Error) ==> resolved_state(config, id, None).1 == Severity::High,
        k == RuleSeverity::Critical ==> resolved_state(config, id, None).1 == Severity::Critical,
        (k == RuleSeverity::Info || k == RuleSeverity::Low) ==> resolved_state(config, id, None).1 == Severity::Low,
        (k == RuleSeverity::Warn || k == RuleSeverity::Medium || k == RuleSeverity::Off)
            ==> resolved_state(config, id, None).1 == Severity::Medium,
        resolved_state(config, id, None).2.len() == 0,
        resolved_state(config, id, None).3.len() == 0,
{
}

/// Overrides apply in order, so the last one decides: where the last override
/// matches the file and gives the detector a bare keyword, the detector is
/// enabled unless the keyword is `off`, and `high` and `error` give high
/// severity, `critical` critical, `info` and `low` low, `warn` and `medium`
/// medium, whatever the rule and the earlier overrides said.
pub proof fn lemma_last_override_decides(config: RulesConfig, id: Seq<char>, path: Seq<char>, k: RuleSeverity)
    requires
        config.overrides@.len() > 0,
        matches_any(config.overrides@.last().files@, path),
        rule_for(config.overrides@.last().rules@, id) == Some(RuleConfig::Short(k)),
    ensures
        resolved_state(config, id, Some(path)).0 == (k != RuleSeverity::Off),
        (k == RuleSeverity::High || k == RuleSeverity::Error) ==> resolved_state(config, id, Some(path)).1 == Severity::High,
        k == RuleSeverity::Critical ==> resolved_state(config, id, Some(path)).1 == Severity::Critical,
        (k == RuleSeverity::Info || k == RuleSeverity::Low) ==> resolved_state(config, id, Some(path)).1 == Severity::Low,
        (k == RuleSeverity::Warn || k == RuleSeverity::Medium) ==> resolved_state(config, id, Some(path)).1 == Severity::Medium,
{
}

/// Without overrides, the file does not change the settings.
pub proof fn lemma_no_overrides_ignore_path(config: RulesConfig, id: Seq<char>, path: Seq<char>)
    requires
        config.overrides@.len() == 0,
    ensures
        resolved_state(config, id, Some(path)) == resolved_state(config, id, None),
{
}

} // verus!
