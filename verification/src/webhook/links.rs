//! The rules that say which links a comment may not hold.
//!
//! A rule is a category and a pattern. The rules are held against a comment one
//! by one, in a fixed order; several may match the same text.

use regex::Regex;
use vstd::prelude::*;
use vstd::string::StringExecFns;

verus! {

/// Whether `pattern` has a match somewhere in `text`; `None` where `pattern`
/// is no regular expression.
pub uninterp spec fn pattern_match(pattern: Seq<char>, text: Seq<char>) -> Option<bool>;

/// `text` with every match of `pattern` replaced by `replacement`; `None`
/// where `pattern` is no regular expression.
pub uninterp spec fn pattern_replace_all(
    pattern: Seq<char>,
    text: Seq<char>,
    replacement: Seq<char>,
) -> Option<Seq<char>>;

/// Compiles `pattern` with `Regex::new` and asks `Regex::is_match` for `text`.
///
/// Trusted: whether the pattern compiles, and whether it then has a match,
/// depends on pattern and text alone.
#[verifier::external_body]
fn regex_is_match(pattern: &str, text: &str) -> (hit: Option<bool>)
    ensures
        hit == pattern_match(pattern@, text@),
{
    match Regex::new(pattern) {
        Ok(regex) => Some(regex.is_match(text)),
        Err(_) => None,
    }
}

/// Whether the stretches lie in a text of `len` characters, each from its
/// first position up to its second, from left to right and none reaching into
/// the next.
pub open spec fn in_order(stretches: Seq<(int, int)>, len: int) -> bool {
    &&& forall|i: int|
        0 <= i < stretches.len() ==> 0 <= (#[trigger] stretches[i]).0 <= stretches[i].1 <= len
    &&& forall|i: int, j: int|
        0 <= i < j < stretches.len() ==> (#[trigger] stretches[i]).1 <= (#[trigger] stretches[j]).0
}

/// `text` with each of the stretches taken out and `insert` put in its place.
pub open spec fn replaced_at(text: Seq<char>, stretches: Seq<(int, int)>, insert: Seq<char>) -> Seq<
    char,
>
    decreases stretches.len(),
{
    if stretches.len() == 0 {
        text
    } else {
        let last = stretches.last();
        replaced_at(text.subrange(0, last.0), stretches.drop_last(), insert) + insert
            + text.subrange(last.1, text.len() as int)
    }
}

/// Whether `after` is `before` with some stretches of it, none reaching into
/// another, each replaced by `insert`: all the rest of the text is kept as it
/// was and where it was.
pub open spec fn kept_but_stretches(before: Seq<char>, insert: Seq<char>, after: Seq<char>) -> bool {
    exists|stretches: Seq<(int, int)>|
        in_order(stretches, before.len() as int) && after == #[trigger] replaced_at(
            before,
            stretches,
            insert,
        )
}

/// Compiles `pattern` with `Regex::new` and has `Regex::replace_all` put
/// `replacement` in the place of every match in `text`.
///
/// Trusted: whether the pattern compiles, and the text that then comes back,
/// depend on pattern, text and replacement alone. A replacement without `$`
/// is put in as it stands, in the place of each stretch that matched; the
/// matches are found from left to right and none reaches into the next, and
/// a text without a match comes back unchanged.
#[verifier::external_body]
fn regex_replace_all(pattern: &str, text: &str, replacement: &str) -> (replaced: Option<String>)
    ensures
        match replaced {
            Some(out) => pattern_replace_all(pattern@, text@, replacement@) == Some(out@),
            None => pattern_replace_all(pattern@, text@, replacement@) is None,
        },
        replaced matches Some(out) ==> (!replacement@.contains('$') ==> kept_but_stretches(
            text@,
            replacement@,
            out@,
        )),
{
    match Regex::new(pattern) {
        Ok(regex) => Some(regex.replace_all(text, replacement).into_owned()),
        Err(_) => None,
    }
}

/// The kinds of link that a rule looks for.
#[derive(Debug, Clone, Copy, PartialEq, Eq, Structural)]
pub enum LinkCategory {
    /// A link to one of the file-sharing services.
    FileSharing,
    /// A link to the cloud drive.
    CloudDrive,
    /// A link through one of the URL shorteners.
    Shortener,
}

/// A category of link and the pattern that finds it.
#[derive(Debug, Clone, Copy, PartialEq, Eq)]
pub struct MatchRule {
    pub category: LinkCategory,
    pub pattern: &'static str,
}

impl View for MatchRule {
    type V = (LinkCategory, Seq<char>);

    open spec fn view(&self) -> (LinkCategory, Seq<char>) {
        (self.category, self.pattern@)
    }
}

/// Finds a link, with or without `www.`, to one of the file-sharing services
/// under `.com`, up to the next white space or closing bracket.
pub const FILE_SHARING_PATTERN: &'static str =
    r"https?://(www\.)?(box|dropbox|mediafire|sugarsync|tresorit|hightail|opentext|sharefile|citrixsharefile|icloud|onedrive|1drv)\.com/[^\s)]+";

/// Finds a link to the cloud drive, up to the next white space or closing
/// bracket.
pub const CLOUD_DRIVE_PATTERN: &'static str = r"https?://drive\.google\.com/[^\s)]+";

/// Finds a link, with or without `www.`, through one of the URL shorteners,
/// up to the next white space or closing bracket.
pub const SHORTENER_PATTERN: &'static str =
    r"https?://(www\.)?(bit\.ly|t\.co|tinyurl\.com|goo\.gl|ow\.ly|buff\.ly|is\.gd|soo\.gd|t2mio|bl\.ink|clck\.ru|shorte\.st|cutt\.ly|v\.gd|qr\.ae|rb\.gy|rebrand\.ly|tr\.im|shorturl\.at|lnkd\.in)/[^\s)]+";

/// What stands in a comment where a link was taken out.
pub const PLACEHOLDER: &'static str = "[Potentially unsafe link removed]";

/// The rules in force, in the order in which they are applied.
pub open spec fn ruleset() -> Seq<(LinkCategory, Seq<char>)> {
    seq![
        (LinkCategory::FileSharing, FILE_SHARING_PATTERN@),
        (LinkCategory::CloudDrive, CLOUD_DRIVE_PATTERN@),
        (LinkCategory::Shortener, SHORTENER_PATTERN@),
    ]
}

/// The rules as plain values.
pub open spec fn rule_views(rules: Seq<MatchRule>) -> Seq<(LinkCategory, Seq<char>)> {
    rules.map_values(|rule: MatchRule| rule@)
}

/// The rules in force.
pub fn rules() -> (rules: Vec<MatchRule>)
    ensures
        rule_views(rules@) == ruleset(),
{
    let mut rules: Vec<MatchRule> = Vec::new();
    rules.push(MatchRule { category: LinkCategory::FileSharing, pattern: FILE_SHARING_PATTERN });
    rules.push(MatchRule { category: LinkCategory::CloudDrive, pattern: CLOUD_DRIVE_PATTERN });
    rules.push(MatchRule { category: LinkCategory::Shortener, pattern: SHORTENER_PATTERN });
    proof {
        assert(rule_views(rules@) =~= ruleset());
    }
    rules
}

/// What stands in a comment where a link was taken out, as plain text.
pub open spec fn placeholder() -> Seq<char> {
    PLACEHOLDER@
}

/// A rule whose pattern is no regular expression, so that nothing can be held
/// against it.
#[derive(Debug, Clone, Copy, PartialEq, Eq, Structural)]
pub struct BrokenRule {
    pub category: LinkCategory,
}

/// The categories of the rules that match `text`, in the order of the rules.
/// The first rule with a broken pattern fails the whole.
pub open spec fn matching(rules: Seq<(LinkCategory, Seq<char>)>, text: Seq<char>) -> Result<
    Seq<LinkCategory>,
    BrokenRule,
>
    decreases rules.len(),
{
    if rules.len() == 0 {
        Ok(Seq::empty())
    } else {
        match matching(rules.drop_last(), text) {
            Err(broken) => Err(broken),
            Ok(before) => match pattern_match(rules.last().1, text) {
                None => Err(BrokenRule { category: rules.last().0 }),
                Some(hit) => Ok(
                    if hit {
                        before.push(rules.last().0)
                    } else {
                        before
                    },
                ),
            },
        }
    }
}

/// The passes over `text`, one for each rule that matches it, in the order of
/// the rules: the category of the rule, and the text after the pass. A pass
/// puts the placeholder wherever the rule matches what the passes before have
/// left, so that what is taken out adds up. The first rule with a broken
/// pattern fails the whole.
pub open spec fn redactions(rules: Seq<(LinkCategory, Seq<char>)>, text: Seq<char>) -> Result<
    Seq<(LinkCategory, Seq<char>)>,
    BrokenRule,
>
    decreases rules.len(),
{
    if rules.len() == 0 {
        Ok(Seq::empty())
    } else {
        match redactions(rules.drop_last(), text) {
            Err(broken) => Err(broken),
            Ok(before) => match pattern_match(rules.last().1, text) {
                None => Err(BrokenRule { category: rules.last().0 }),
                Some(false) => Ok(before),
                Some(true) => match pattern_replace_all(
                    rules.last().1,
                    left_by(before, text),
                    placeholder(),
                ) {
                    None => Err(BrokenRule { category: rules.last().0 }),
                    Some(after) => Ok(before.push((rules.last().0, after))),
                },
            },
        }
    }
}

/// The text that the passes so far have left of `text`.
pub open spec fn left_by(passes: Seq<(LinkCategory, Seq<char>)>, text: Seq<char>) -> Seq<char> {
    if passes.len() == 0 {
        text
    } else {
        passes.last().1
    }
}

/// Whether every pass has kept all of the text that the passes before it
/// left, but for stretches where the placeholder now stands.
pub open spec fn keeps_the_rest(passes: Seq<(LinkCategory, Seq<char>)>, text: Seq<char>) -> bool {
    forall|k: int|
        0 <= k < passes.len() ==> kept_but_stretches(
            left_by(passes.take(k), text),
            placeholder(),
            #[trigger] passes[k].1,
        )
}

/// One pass over a comment: the category of the rule that matched, and the
/// text of the comment after the pass.
#[derive(Debug, Clone, PartialEq, Eq)]
pub struct Redaction {
    pub category: LinkCategory,
    pub text: String,
}

impl View for Redaction {
    type V = (LinkCategory, Seq<char>);

    open spec fn view(&self) -> (LinkCategory, Seq<char>) {
        (self.category, self.text@)
    }
}

/// The passes as plain values.
pub open spec fn redaction_views(passes: Seq<Redaction>) -> Seq<(LinkCategory, Seq<char>)> {
    passes.map_values(|pass: Redaction| pass@)
}

/// Holds every rule against `text` and names the categories of those that
/// match, in the order of the rules.
pub fn scan(rules: &Vec<MatchRule>, text: &str) -> (found: Result<Vec<LinkCategory>, BrokenRule>)
    ensures
        match found {
            Ok(categories) => matching(rule_views(rules@), text@) == Ok::<
                Seq<LinkCategory>,
                BrokenRule,
            >(categories@),
            Err(broken) => matching(rule_views(rules@), text@) == Err::<
                Seq<LinkCategory>,
                BrokenRule,
            >(broken),
        },
{
    let mut found: Vec<LinkCategory> = Vec::new();
    let mut i: usize = 0;
    proof {
        assert(rule_views(rules@).take(0) =~= Seq::empty());
    }
    while i < rules.len()
        invariant
            i <= rules@.len(),
            matching(rule_views(rules@).take(i as int), text@) == Ok::<
                Seq<LinkCategory>,
                BrokenRule,
            >(found@),
        decreases rules@.len() - i,
    {
        let rule = rules[i];
        proof {
            let so_far = rule_views(rules@).take(i + 1);
            assert(so_far.drop_last() =~= rule_views(rules@).take(i as int));
            assert(so_far.last() == rule@);
            lemma_matching_cut(rule_views(rules@), i + 1, text@);
        }
        match regex_is_match(rule.pattern, text) {
            None => {
                return Err(BrokenRule { category: rule.category });
            },
            Some(hit) => {
                if hit {
                    found.push(rule.category);
                }
            },
        }
        i = i + 1;
    }
    proof {
        assert(rule_views(rules@).take(i as int) =~= rule_views(rules@));
    }
    Ok(found)
}

/// Takes out of `text` what the rules find in it: one pass for each rule that
/// matches, in the order of the rules, each on what the passes before have
/// left.
pub fn redact(rules: &Vec<MatchRule>, text: &str) -> (passes: Result<Vec<Redaction>, BrokenRule>)
    ensures
        match passes {
            Ok(done) => redactions(rule_views(rules@), text@) == Ok::<
                Seq<(LinkCategory, Seq<char>)>,
                BrokenRule,
            >(redaction_views(done@)),
            Err(broken) => redactions(rule_views(rules@), text@) == Err::<
                Seq<(LinkCategory, Seq<char>)>,
                BrokenRule,
            >(broken),
        },
        passes matches Ok(done) ==> keeps_the_rest(redaction_views(done@), text@),
{
    proof {
        lemma_placeholder_is_plain();
    }
    let mut done: Vec<Redaction> = Vec::new();
    let mut current = String::from_str(text);
    let mut i: usize = 0;
    proof {
        assert(rule_views(rules@).take(0) =~= Seq::empty());
        assert(redaction_views(done@) =~= Seq::empty());
    }
    while i < rules.len()
        invariant
            i <= rules@.len(),
            redactions(rule_views(rules@).take(i as int), text@) == Ok::<
                Seq<(LinkCategory, Seq<char>)>,
                BrokenRule,
            >(redaction_views(done@)),
            current@ == left_by(redaction_views(done@), text@),
            keeps_the_rest(redaction_views(done@), text@),
            !placeholder().contains('$'),
        decreases rules@.len() - i,
    {
        let rule = rules[i];
        proof {
            let so_far = rule_views(rules@).take(i + 1);
            assert(so_far.drop_last() =~= rule_views(rules@).take(i as int));
            assert(so_far.last() == rule@);
            lemma_redactions_cut(rule_views(rules@), i + 1, text@);
        }
        match regex_is_match(rule.pattern, text) {
            None => {
                return Err(BrokenRule { category: rule.category });
            },
            Some(hit) => {
                if hit {
                    match regex_replace_all(rule.pattern, current.as_str(), PLACEHOLDER) {
                        None => {
                            return Err(BrokenRule { category: rule.category });
                        },
                        Some(after) => {
                            let ghost before = redaction_views(done@);
                            current = after.clone();
                            done.push(Redaction { category: rule.category, text: after });
                            proof {
                                let now = redaction_views(done@);
                                assert(now =~= before.push((rule.category, current@)));
                                assert forall|k: int| 0 <= k < now.len() implies kept_but_stretches(
                                    left_by(now.take(k), text@),
                                    placeholder(),
                                    #[trigger] now[k].1,
                                ) by {
                                    if k < before.len() {
                                        assert(now.take(k) =~= before.take(k));
                                        assert(now[k] == before[k]);
                                    } else {
                                        assert(now.take(k) =~= before);
                                    }
                                }
                            }
                        },
                    }
                }
            },
        }
        i = i + 1;
    }
    proof {
        assert(rule_views(rules@).take(i as int) =~= rule_views(rules@));
    }
    Ok(done)
}

/// The placeholder holds no `$`, so that it is put into a text as it stands.
proof fn lemma_placeholder_is_plain()
    ensures
        !placeholder().contains('$'),
{
    reveal_strlit("[Potentially unsafe link removed]");
    let text = "[Potentially unsafe link removed]"@;
    assert(placeholder() == text);
    assert(text.len() == 33);
    assert forall|i: int| 0 <= i < text.len() implies text[i] != '$' by {}
}

/// A failure among the first rules is the failure of the whole list.
proof fn lemma_matching_cut(rules: Seq<(LinkCategory, Seq<char>)>, n: int, text: Seq<char>)
    requires
        0 <= n <= rules.len(),
    ensures
        matching(rules.take(n), text) is Err ==> matching(rules, text) == matching(rules.take(n), text),
    decreases rules.len() - n,
{
    if n < rules.len() {
        assert(rules.take(n + 1).drop_last() =~= rules.take(n));
        lemma_matching_cut(rules, n + 1, text);
    } else {
        assert(rules.take(n) =~= rules);
    }
}

/// A failure among the first rules is the failure of the whole list.
proof fn lemma_redactions_cut(rules: Seq<(LinkCategory, Seq<char>)>, n: int, text: Seq<char>)
    requires
        0 <= n <= rules.len(),
    ensures
        redactions(rules.take(n), text) is Err ==> redactions(rules, text) == redactions(rules.take(n), text),
    decreases rules.len() - n,
{
    if n < rules.len() {
        assert(rules.take(n + 1).drop_last() =~= rules.take(n));
        lemma_redactions_cut(rules, n + 1, text);
    } else {
        assert(rules.take(n) =~= rules);
    }
}

/// Where no rule matches, nothing is found and nothing is taken out.
pub proof fn lemma_nothing_matches(rules: Seq<(LinkCategory, Seq<char>)>, text: Seq<char>)
    requires
        forall|i: int| 0 <= i < rules.len() ==> pattern_match(#[trigger] rules[i].1, text) == Some(false),
    ensures
        matching(rules, text) == Ok::<Seq<LinkCategory>, BrokenRule>(Seq::empty()),
        redactions(rules, text) == Ok::<Seq<(LinkCategory, Seq<char>)>, BrokenRule>(Seq::empty()),
    decreases rules.len(),
{
    if rules.len() > 0 {
        assert forall|i: int| 0 <= i < rules.drop_last().len() implies pattern_match(
            #[trigger] rules.drop_last()[i].1,
            text,
        ) == Some(false) by {
            assert(rules.drop_last()[i] == rules[i]);
        }
        lemma_nothing_matches(rules.drop_last(), text);
        assert(rules.last() == rules[rules.len() - 1]);
    }
}

/// A redaction makes one pass for each rule that matches, and in the same
/// order: the passes carry the categories that a scan finds.
pub proof fn lemma_pass_per_match(rules: Seq<(LinkCategory, Seq<char>)>, text: Seq<char>)
    requires
        redactions(rules, text) is Ok,
    ensures
        matching(rules, text) is Ok,
        matching(rules, text)->Ok_0 == redactions(rules, text)->Ok_0.map_values(
            |pass: (LinkCategory, Seq<char>)| pass.0,
        ),
    decreases rules.len(),
{
    let category = |pass: (LinkCategory, Seq<char>)| pass.0;
    if rules.len() == 0 {
        assert(matching(rules, text)->Ok_0 =~= redactions(rules, text)->Ok_0.map_values(category));
    } else {
        lemma_pass_per_match(rules.drop_last(), text);
        let before = redactions(rules.drop_last(), text)->Ok_0;
        if pattern_match(rules.last().1, text) == Some(true) {
            let after = redactions(rules, text)->Ok_0;
            assert(after == before.push(after.last()));
            assert(after.map_values(category) =~= before.map_values(category).push(
                rules.last().0,
            ));
        }
    }
}

} // verus!
