//! Category-filtered debug logging: which categories a `-d/--debug [filter]`
//! switch turns on, and the line a logged message becomes.
use std::collections::BTreeSet;
use vstd::prelude::*;
use crate::text::{
    chars_of, eq_ignore_case, fold_char, lemma_ignore_case_one_keyword, lowercase, matches_ignore_case, push_str, split, split_chars,
    string_of, to_lowercase, trim, trim_chars, views,
};

verus! {

/// Debug output categories.
#[derive(Debug, Clone, Copy, PartialEq, Eq, Structural, PartialOrd, Ord, Hash)]
pub enum DebugCategory {
    Api,
    Hooks,
    Tools,
    Mcp,
    Config,
    Permissions,
    Session,
    All,
}

/// The category a category name stands for, compared without regard to case.
pub open spec fn category_of(s: Seq<char>) -> Option<DebugCategory> {
    if eq_ignore_case(s, "api"@) {
        Some(DebugCategory::Api)
    } else if eq_ignore_case(s, "hooks"@) {
        Some(DebugCategory::Hooks)
    } else if eq_ignore_case(s, "tools"@) {
        Some(DebugCategory::Tools)
    } else if eq_ignore_case(s, "mcp"@) {
        Some(DebugCategory::Mcp)
    } else if eq_ignore_case(s, "config"@) {
        Some(DebugCategory::Config)
    } else if eq_ignore_case(s, "permissions"@) {
        Some(DebugCategory::Permissions)
    } else if eq_ignore_case(s, "session"@) {
        Some(DebugCategory::Session)
    } else if eq_ignore_case(s, "all"@) {
        Some(DebugCategory::All)
    } else {
        None
    }
}

/// The lower-case name of a category, as a filter writes it.
pub open spec fn category_keyword(c: DebugCategory) -> Seq<char> {
    match c {
        DebugCategory::Api => "api"@,
        DebugCategory::Hooks => "hooks"@,
        DebugCategory::Tools => "tools"@,
        DebugCategory::Mcp => "mcp"@,
        DebugCategory::Config => "config"@,
        DebugCategory::Permissions => "permissions"@,
        DebugCategory::Session => "session"@,
        DebugCategory::All => "all"@,
    }
}

/// The name of a category as `{:?}` prints it.
pub open spec fn category_label(c: DebugCategory) -> Seq<char> {
    match c {
        DebugCategory::Api => "Api"@,
        DebugCategory::Hooks => "Hooks"@,
        DebugCategory::Tools => "Tools"@,
        DebugCategory::Mcp => "Mcp"@,
        DebugCategory::Config => "Config"@,
        DebugCategory::Permissions => "Permissions"@,
        DebugCategory::Session => "Session"@,
        DebugCategory::All => "All"@,
    }
}

/// The message for a category name that is not recognized.
pub open spec fn msg_unknown_category(s: Seq<char>) -> Seq<char> {
    "unknown debug category: "@ + lowercase(s)
        + " (expected: api,hooks,tools,mcp,config,permissions,session,all)"@
}

/// The message for a filter that names no category.
pub open spec fn msg_empty_filter() -> Seq<char> {
    "empty debug filter"@
}

/// The number under which a category is kept in a `CategorySet`.
pub open spec fn category_code(c: DebugCategory) -> u8 {
    match c {
        DebugCategory::Api => 0,
        DebugCategory::Hooks => 1,
        DebugCategory::Tools => 2,
        DebugCategory::Mcp => 3,
        DebugCategory::Config => 4,
        DebugCategory::Permissions => 5,
        DebugCategory::Session => 6,
        DebugCategory::All => 7,
    }
}

/// The category kept under a number below eight.
pub open spec fn category_at(k: u8) -> DebugCategory {
    if k == 0 {
        DebugCategory::Api
    } else if k == 1 {
        DebugCategory::Hooks
    } else if k == 2 {
        DebugCategory::Tools
    } else if k == 3 {
        DebugCategory::Mcp
    } else if k == 4 {
        DebugCategory::Config
    } else if k == 5 {
        DebugCategory::Permissions
    } else if k == 6 {
        DebugCategory::Session
    } else {
        DebugCategory::All
    }
}

fn code_of(c: DebugCategory) -> (k: u8)
    ensures
        k == category_code(c),
        k < 8,
        category_at(k) == c,
{
    match c {
        DebugCategory::Api => 0,
        DebugCategory::Hooks => 1,
        DebugCategory::Tools => 2,
        DebugCategory::Mcp => 3,
        DebugCategory::Config => 4,
        DebugCategory::Permissions => 5,
        DebugCategory::Session => 6,
        DebugCategory::All => 7,
    }
}

impl DebugCategory {
    /// Parses a single category name (case-insensitive).
    pub fn parse(s: &str) -> (r: Result<DebugCategory, String>)
        ensures
            match category_of(s@) {
                Some(c) => r == Ok::<DebugCategory, String>(c),
                None => r is Err && r->Err_0@ == msg_unknown_category(s@),
            },
    {
        let v = chars_of(s);
        if matches_ignore_case(v.as_slice(), "api") {
            Ok(DebugCategory::Api)
        } else if matches_ignore_case(v.as_slice(), "hooks") {
            Ok(DebugCategory::Hooks)
        } else if matches_ignore_case(v.as_slice(), "tools") {
            Ok(DebugCategory::Tools)
        } else if matches_ignore_case(v.as_slice(), "mcp") {
            Ok(DebugCategory::Mcp)
        } else if matches_ignore_case(v.as_slice(), "config") {
            Ok(DebugCategory::Config)
        } else if matches_ignore_case(v.as_slice(), "permissions") {
            Ok(DebugCategory::Permissions)
        } else if matches_ignore_case(v.as_slice(), "session") {
            Ok(DebugCategory::Session)
        } else if matches_ignore_case(v.as_slice(), "all") {
            Ok(DebugCategory::All)
        } else {
            let mut m = String::new();
            push_str(&mut m, "unknown debug category: ");
            push_str(&mut m, to_lowercase(s).as_str());
            push_str(&mut m, " (expected: api,hooks,tools,mcp,config,permissions,session,all)");
            Err(m)
        }
    }

    /// The name of the category as `{:?}` prints it.
    pub fn label(self) -> (s: &'static str)
        ensures
            s@ == category_label(self),
    {
        match self {
            DebugCategory::Api => "Api",
            DebugCategory::Hooks => "Hooks",
            DebugCategory::Tools => "Tools",
            DebugCategory::Mcp => "Mcp",
            DebugCategory::Config => "Config",
            DebugCategory::Permissions => "Permissions",
            DebugCategory::Session => "Session",
            DebugCategory::All => "All",
        }
    }
}

/// A set of debug categories.
#[derive(Debug, PartialEq, Eq)]
pub struct CategorySet {
    codes: BTreeSet<u8>,
}

impl Clone for CategorySet {
    fn clone(&self) -> (r: CategorySet)
        ensures
            r@ == self@,
    {
        proof {
            use_type_invariant(self);
        }
        CategorySet { codes: self.codes.clone() }
    }
}

impl CategorySet {
    #[verifier::type_invariant]
    spec fn codes_valid(self) -> bool {
        forall|k: u8| #[trigger] self.codes@.contains(k) ==> k < 8
    }
}

impl View for CategorySet {
    type V = Set<DebugCategory>;

    closed spec fn view(&self) -> Set<DebugCategory> {
        Set::new(|c: DebugCategory| self.codes@.contains(category_code(c)))
    }
}

impl CategorySet {
    /// The empty set.
    pub fn new() -> (s: CategorySet)
        ensures
            s@ == Set::<DebugCategory>::empty(),
    {
        let s = CategorySet { codes: BTreeSet::new() };
        assert(s@ =~= Set::<DebugCategory>::empty());
        s
    }

    /// Adds a category; says whether it was not there before.
    pub fn insert(&mut self, c: DebugCategory) -> (added: bool)
        ensures
            final(self)@ == old(self)@.insert(c),
            added == !old(self)@.contains(c),
    {
        proof {
            use_type_invariant(&*self);
        }
        let k = code_of(c);
        let ghost before = self.codes@;
        let mut codes = BTreeSet::new();
        std::mem::swap(&mut codes, &mut self.codes);
        let added = codes.insert(k);
        assert(codes@ == before.insert(k));
        assert forall|j: u8| #[trigger] codes@.contains(j) implies j < 8 by {
            if j != k {
                assert(before.contains(j));
            }
        }
        self.codes = codes;
        proof {
            assert forall|d: DebugCategory| #[trigger] final(self)@.contains(d) == old(self)@.insert(
                c,
            ).contains(d) by {
                if category_code(d) == k {
                    assert(d == c) by {
                        assert(category_at(category_code(d)) == d);
                    }
                }
            }
            assert(final(self)@ =~= old(self)@.insert(c));
        }
        added
    }

    /// Whether the set holds `c`.
    pub fn contains(&self, c: &DebugCategory) -> (r: bool)
        ensures
            r == self@.contains(*c),
    {
        let k = code_of(*c);
        self.codes.contains(&k)
    }

    /// Whether the set holds no category.
    pub fn is_empty(&self) -> (r: bool)
        ensures
            r == (self@ == Set::<DebugCategory>::empty()),
    {
        proof {
            use_type_invariant(self);
        }
        let r = self.codes.is_empty();
        if !r {
            let ghost k = self.codes@.choose();
            assert(self.codes@.contains(k));
            assert(category_code(category_at(k)) == k);
            assert(self@.contains(category_at(k)));
        } else {
            assert(self@ =~= Set::<DebugCategory>::empty());
        }
        r
    }
}

/// Configuration of the debug logging system.
#[derive(Debug, Clone, PartialEq)]
pub struct DebugConfig {
    pub enabled: bool,
    pub categories: CategorySet,
}

/// Whether a configuration lets messages of `category` through.
pub open spec fn logs(cfg: DebugConfig, category: DebugCategory) -> bool {
    cfg.enabled && (cfg.categories@.contains(DebugCategory::All) || cfg.categories@.contains(
        category,
    ))
}

/// What the first `n` comma-separated pieces of a filter select: the
/// categories named so far, or the message for the first unknown name.
/// Pieces that are empty once trimmed are skipped.
pub open spec fn filter_upto(parts: Seq<Seq<char>>, n: int) -> Result<Set<DebugCategory>, Seq<char>>
    decreases n,
{
    if n <= 0 {
        Ok(Set::empty())
    } else {
        match filter_upto(parts, n - 1) {
            Err(e) => Err(e),
            Ok(s) => {
                let p = trim(parts[n - 1]);
                if p.len() == 0 {
                    Ok(s)
                } else {
                    match category_of(p) {
                        None => Err(msg_unknown_category(p)),
                        Some(c) => Ok(s.insert(c)),
                    }
                }
            },
        }
    }
}

/// What a filter text selects, piece by piece.
pub open spec fn filter_categories(f: Seq<char>) -> Result<Set<DebugCategory>, Seq<char>> {
    let parts = split(f, ',');
    filter_upto(parts, parts.len() as int)
}

/// The categories a filter text selects, piece by piece.
fn select_categories(f: &str) -> (r: Result<CategorySet, String>)
    ensures
        match filter_categories(f@) {
            Err(e) => r is Err && r->Err_0@ == e,
            Ok(s) => (r matches Ok(c) && c@ == s),
        },
{
    let v = chars_of(f);
    let parts = split_chars(v.as_slice(), ',');
    let ghost ps = views(parts@);
    let mut cats = CategorySet::new();
    let mut i: usize = 0;
    while i < parts.len()
        invariant
            0 <= i <= parts.len(),
            ps == views(parts@),
            ps == split(f@, ','),
            filter_upto(ps, i as int) == Ok::<Set<DebugCategory>, Seq<char>>(cats@),
        decreases parts.len() - i,
    {
        let piece = trim_chars(parts[i].as_slice());
        assert(ps[i as int] == parts@[i as int]@);
        if piece.len() > 0 {
            let name = string_of(piece.as_slice());
            match DebugCategory::parse(name.as_str()) {
                Ok(c) => {
                    cats.insert(c);
                },
                Err(e) => {
                    assert(filter_upto(ps, i + 1) == Err::<Set<DebugCategory>, Seq<char>>(e@));
                    proof {
                        lemma_filter_err_stays(ps, i + 1, ps.len() as int);
                    }
                    return Err(e);
                },
            }
        }
        i = i + 1;
    }
    Ok(cats)
}

impl DebugConfig {
    /// A configuration that logs nothing.
    pub fn disabled() -> (cfg: DebugConfig)
        ensures
            !cfg.enabled,
            cfg.categories@ == Set::<DebugCategory>::empty(),
    {
        DebugConfig { enabled: false, categories: CategorySet::new() }
    }

    /// Parses a comma-separated filter.  `None` selects every category.
    pub fn from_filter(filter: Option<&str>) -> (r: Result<DebugConfig, String>)
        ensures
            match filter {
                None => (r matches Ok(cfg) && cfg.enabled && cfg.categories@ == set![
                    DebugCategory::All
                ]),
                Some(f) => match filter_categories(f@) {
                    Err(e) => r is Err && r->Err_0@ == e,
                    Ok(s) => if s.is_empty() {
                        r is Err && r->Err_0@ == msg_empty_filter()
                    } else {
                        (r matches Ok(cfg) && cfg.enabled && cfg.categories@ == s)
                    },
                },
            },
    {
        match filter {
            None => {
                let mut cats = CategorySet::new();
                cats.insert(DebugCategory::All);
                assert(cats@ =~= set![DebugCategory::All]);
                Ok(DebugConfig { enabled: true, categories: cats })
            },
            Some(f) => {
                let cats = match select_categories(f) {
                    Ok(c) => c,
                    Err(e) => {
                        return Err(e);
                    },
                };
                if cats.is_empty() {
                    let mut m = String::new();
                    push_str(&mut m, "empty debug filter");
                    Err(m)
                } else {
                    Ok(DebugConfig { enabled: true, categories: cats })
                }
            },
        }
    }

    /// Whether a message of `category` should be logged.
    pub fn should_log(&self, category: DebugCategory) -> (r: bool)
        ensures
            r == logs(*self, category),
    {
        self.enabled && (self.categories.contains(&DebugCategory::All) || self.categories.contains(
            &category,
        ))
    }

    /// The line a message of `category` is written as, when the
    /// configuration lets it through: `[DEBUG:<Category>] <message>`.
    pub fn log_line(&self, category: DebugCategory, message: &str) -> (r: Option<String>)
        ensures
            logs(*self, category) ==> (r matches Some(line) && line@ == "[DEBUG:"@ + category_label(
                category,
            ) + "] "@ + message@),
            !logs(*self, category) ==> r is None,
    {
        if !self.should_log(category) {
            return None;
        }
        let mut line = String::new();
        push_str(&mut line, "[DEBUG:");
        push_str(&mut line, category.label());
        push_str(&mut line, "] ");
        push_str(&mut line, message);
        Some(line)
    }
}

/// Once a filter piece has named an unknown category, the later pieces
/// change nothing.
pub proof fn lemma_filter_err_stays(parts: Seq<Seq<char>>, i: int, n: int)
    requires
        0 <= i <= n,
        filter_upto(parts, i) is Err,
    ensures
        filter_upto(parts, n) == filter_upto(parts, i),
    decreases n - i,
{
    if n > i {
        lemma_filter_err_stays(parts, i, n - 1);
    }
}

/// A configuration that holds `All` logs every category while it is
/// enabled.
pub proof fn law_all_logs_every_category(cfg: DebugConfig, c: DebugCategory)
    requires
        cfg.enabled,
        cfg.categories@.contains(DebugCategory::All),
    ensures
        logs(cfg, c),
{
}

/// A disabled configuration logs nothing, whatever its categories.
pub proof fn law_disabled_logs_nothing(cfg: DebugConfig, c: DebugCategory)
    requires
        !cfg.enabled,
    ensures
        !logs(cfg, c),
{
}

/// Without `All`, an enabled configuration logs exactly the categories it
/// holds.
pub proof fn law_specific_filter_logs_its_categories(cfg: DebugConfig, c: DebugCategory)
    requires
        cfg.enabled,
        !cfg.categories@.contains(DebugCategory::All),
    ensures
        logs(cfg, c) == cfg.categories@.contains(c),
{
}

/// Every category is parsed back from its filter name.
pub proof fn law_keyword_parses_back(c: DebugCategory)
    ensures
        category_of(category_keyword(c)) == Some(c),
{
    reveal_strlit("api");
    reveal_strlit("hooks");
    reveal_strlit("tools");
    reveal_strlit("mcp");
    reveal_strlit("config");
    reveal_strlit("permissions");
    reveal_strlit("session");
    reveal_strlit("all");
    assert(fold_char("tools"@[0]) != "hooks"@[0]);
    assert(fold_char("mcp"@[0]) != "api"@[0]);
    assert(fold_char("all"@[1]) != "api"@[1]);
    assert(fold_char("all"@[0]) != "mcp"@[0]);
}

/// A filter name selects a category whatever the case of its letters
/// (`Tools`, `TOOLS` and `tools` all select `Tools`), and a name selects a
/// category only when it is that category's name up to case.
pub proof fn law_parse_ignores_case(s: Seq<char>, c: DebugCategory)
    ensures
        eq_ignore_case(s, category_keyword(c)) ==> category_of(s) == Some(c),
        category_of(s) == Some(c) ==> eq_ignore_case(s, category_keyword(c)),
{
    reveal_strlit("api");
    reveal_strlit("hooks");
    reveal_strlit("tools");
    reveal_strlit("mcp");
    reveal_strlit("config");
    reveal_strlit("permissions");
    reveal_strlit("session");
    reveal_strlit("all");
    let kw = category_keyword(c);
    if eq_ignore_case(s, kw) {
        if eq_ignore_case(s, "api"@) {
            lemma_ignore_case_one_keyword(s, "api"@, kw);
        }
        if eq_ignore_case(s, "hooks"@) {
            lemma_ignore_case_one_keyword(s, "hooks"@, kw);
        }
        if eq_ignore_case(s, "tools"@) {
            lemma_ignore_case_one_keyword(s, "tools"@, kw);
        }
        if eq_ignore_case(s, "mcp"@) {
            lemma_ignore_case_one_keyword(s, "mcp"@, kw);
        }
        if eq_ignore_case(s, "config"@) {
            lemma_ignore_case_one_keyword(s, "config"@, kw);
        }
        if eq_ignore_case(s, "permissions"@) {
            lemma_ignore_case_one_keyword(s, "permissions"@, kw);
        }
        if eq_ignore_case(s, "session"@) {
            lemma_ignore_case_one_keyword(s, "session"@, kw);
        }
        assert("api"@[0] != "mcp"@[0]);
        assert("api"@[1] != "all"@[1]);
        assert("mcp"@[0] != "all"@[0]);
        assert("hooks"@[0] != "tools"@[0]);
    }
}

} // verus!
