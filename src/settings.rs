//! Layered settings: a base source overlaid by prefixed environment variables.
use vstd::prelude::*;
use vstd::string::*;

verus! {

/// What lowercasing a text gives; it depends on the characters alone.
pub uninterp spec fn lower_of(s: Seq<char>) -> Seq<char>;

/// Relies on `str::to_lowercase`: the lowercase form of `s`, a function of its characters.
#[verifier::external_body]
fn lowercase(s: &str) -> (r: String)
    ensures
        r@ == lower_of(s@),
{
    s.to_lowercase()
}

/// The prefix (after lowercasing) that marks an environment variable as a setting.
pub open spec fn env_prefix() -> Seq<char> {
    seq!['s', 'p', 'o', 't', '_']
}

/// The setting that an environment variable named `name` overrides, if any:
/// the lowercased name with the prefix stripped.
pub open spec fn env_key(name: Seq<char>) -> Option<Seq<char>> {
    let l = lower_of(name);
    if l.len() >= 5 && l.subrange(0, 5) == env_prefix() {
        Some(l.subrange(5, l.len() as int))
    } else {
        None
    }
}

/// The map that a list of assignments leaves behind, later ones winning.
pub open spec fn assigned(s: Seq<(Seq<char>, Seq<char>)>) -> Map<Seq<char>, Seq<char>>
    decreases s.len(),
{
    if s.len() == 0 {
        Map::empty()
    } else {
        assigned(s.drop_last()).insert(s.last().0, s.last().1)
    }
}

/// A list of key/value pairs, as values.
pub open spec fn views_of(s: Seq<(String, String)>) -> Seq<(Seq<char>, Seq<char>)> {
    s.map_values(|e: (String, String)| (e.0@, e.1@))
}

/// The assignments of the base source, keys lowercased.
pub open spec fn base_assignments(base: Seq<(String, String)>) -> Seq<(Seq<char>, Seq<char>)> {
    base.map_values(|e: (String, String)| (lower_of(e.0@), e.1@))
}

/// The assignments of the environment: prefixed variables only, prefix stripped.
pub open spec fn env_assignments(env: Seq<(String, String)>) -> Seq<(Seq<char>, Seq<char>)>
    decreases env.len(),
{
    if env.len() == 0 {
        Seq::empty()
    } else {
        let rest = env_assignments(env.drop_last());
        match env_key(env.last().0@) {
            Some(k) => rest.push((k, env.last().1@)),
            None => rest,
        }
    }
}

/// The resolved settings: the base source first, the environment over it.
pub open spec fn resolved(base: Seq<(String, String)>, env: Seq<(String, String)>) -> Map<
    Seq<char>,
    Seq<char>,
> {
    assigned(base_assignments(base) + env_assignments(env))
}

/// The key of the listening port setting.
pub open spec fn port_key() -> Seq<char> {
    seq!['p', 'o', 'r', 't']
}

/// The port that is used when the settings name none.
pub const DEFAULT_PORT: u16 = 3000;

pub open spec fn is_digit(c: char) -> bool {
    '0' <= c && c <= '9'
}

/// Whether `s` is a non-empty run of decimal digits.
pub open spec fn is_decimal(s: Seq<char>) -> bool {
    s.len() > 0 && forall|i: int| 0 <= i < s.len() ==> is_digit(#[trigger] s[i])
}

/// The number that a run of decimal digits denotes.
pub open spec fn decimal_value(s: Seq<char>) -> int
    decreases s.len(),
{
    if s.len() == 0 {
        0
    } else {
        decimal_value(s.drop_last()) * 10 + (s.last() as int - '0' as int)
    }
}

/// The listening port that a settings map gives: the default when it has no
/// `port` key, its value when that is a decimal number up to 65535, and an
/// error otherwise.
pub open spec fn port_of(m: Map<Seq<char>, Seq<char>>) -> Result<u16, ConfigError> {
    if !m.contains_key(port_key()) {
        Ok(DEFAULT_PORT)
    } else if is_decimal(m[port_key()]) && decimal_value(m[port_key()]) <= 65535 {
        Ok(decimal_value(m[port_key()]) as u16)
    } else {
        Err(ConfigError::InvalidPort)
    }
}

proof fn lemma_assigned_last(s: Seq<(Seq<char>, Seq<char>)>, k: Seq<char>, i: int)
    requires
        0 <= i < s.len(),
        s[i].0 == k,
        forall|j: int| i < j < s.len() ==> s[j].0 != k,
    ensures
        assigned(s).contains_key(k),
        assigned(s)[k] == s[i].1,
    decreases s.len(),
{
    if i < s.len() - 1 {
        lemma_assigned_last(s.drop_last(), k, i);
    }
}

proof fn lemma_assigned_absent(s: Seq<(Seq<char>, Seq<char>)>, k: Seq<char>)
    requires
        forall|j: int| 0 <= j < s.len() ==> s[j].0 != k,
    ensures
        !assigned(s).contains_key(k),
    decreases s.len(),
{
    if s.len() > 0 {
        lemma_assigned_absent(s.drop_last(), k);
    }
}

proof fn lemma_assigned_dom(s: Seq<(Seq<char>, Seq<char>)>)
    ensures
        forall|k: Seq<char>| #[trigger] assigned(s).contains_key(k) <==> names(s, s.len() as int, k),
    decreases s.len(),
{
    if s.len() > 0 {
        let p = s.drop_last();
        lemma_assigned_dom(p);
        assert forall|k: Seq<char>| #[trigger]
            assigned(s).contains_key(k) <==> names(s, s.len() as int, k) by {
            assert(assigned(p).contains_key(k) <==> names(p, p.len() as int, k));
            if k == s.last().0 {
                assert(s[s.len() - 1].0 == k);
            } else {
                if names(p, p.len() as int, k) {
                    let j = choose|j: int| 0 <= j < p.len() && p[j].0 == k;
                    assert(s[j] == p[j]);
                }
                if names(s, s.len() as int, k) {
                    let j = choose|j: int| 0 <= j < s.len() && s[j].0 == k;
                    assert(s[j] == p[j]);
                }
            }
        }
    }
}

spec fn lists(r: Seq<String>, q: Seq<char>) -> bool {
    exists|m: int| 0 <= m < r.len() && r[m]@ == q
}

spec fn names(a: Seq<(Seq<char>, Seq<char>)>, n: int, q: Seq<char>) -> bool {
    exists|j: int| 0 <= j < n && a[j].0 == q
}

/// Whether `k` is one of the texts in `r`.
fn holds_text(r: &Vec<String>, k: &String) -> (b: bool)
    ensures
        b == exists|m: int| 0 <= m < r@.len() && r@[m]@ == k@,
{
    let mut i: usize = 0;
    while i < r.len()
        invariant
            i <= r@.len(),
            forall|m: int| 0 <= m < i ==> r@[m]@ != k@,
        decreases r@.len() - i,
    {
        if r[i] == *k {
            return true;
        }
        i = i + 1;
    }
    false
}

/// An environment variable overrides the base source: the resolved value of a
/// key is that of the last prefixed variable that names it, whatever the base
/// source holds for it.
pub proof fn lemma_override_wins(
    base: Seq<(String, String)>,
    env: Seq<(String, String)>,
    k: Seq<char>,
    i: int,
)
    requires
        0 <= i < env.len(),
        env_key(env[i].0@) == Some(k),
        forall|j: int| i < j < env.len() ==> env_key(env[j].0@) != Some(k),
    ensures
        resolved(base, env).contains_key(k),
        resolved(base, env)[k] == env[i].1@,
    decreases env.len(),
{
    let b = base_assignments(base);
    let rest = env_assignments(env.drop_last());
    if i < env.len() - 1 {
        lemma_override_wins(base, env.drop_last(), k, i);
    }
    match env_key(env.last().0@) {
        Some(k2) => {
            let x = (k2, env.last().1@);
            assert(b + rest.push(x) =~= (b + rest).push(x));
            assert((b + rest).push(x).drop_last() =~= b + rest);
        },
        None => {},
    }
}

/// Why the settings could not be loaded.
#[derive(Debug, Clone, Copy, PartialEq, Eq, Structural)]
pub enum ConfigError {
    /// The required base source does not exist.
    MissingSource,
    /// The base source exists but could not be read as key/value pairs.
    Unparseable,
    /// The `port` setting is not a number from 0 to 65535.
    InvalidPort,
}

/// The settings after merging, immutable once loaded.
pub struct ResolvedConfig {
    entries: Vec<(String, String)>,
}

impl ResolvedConfig {
    /// The stored assignments, in the order in which they were made.
    pub closed spec fn assignments(&self) -> Seq<(Seq<char>, Seq<char>)> {
        views_of(self.entries@)
    }

    /// The settings as a map from key to value.
    pub closed spec fn view(&self) -> Map<Seq<char>, Seq<char>> {
        assigned(self.assignments())
    }
}

impl ResolvedConfig {
    /// The value of `key`, if the settings hold it.
    pub fn get(&self, key: &str) -> (r: Option<&String>)
        ensures
            r matches Some(v) ==> self@.contains_key(key@) && self@[key@] == v@,
            r is None ==> !self@.contains_key(key@),
    {
        let wanted = String::from_str(key);
        let mut i: usize = self.entries.len();
        while i > 0
            invariant
                i <= self.entries.len(),
                wanted@ == key@,
                forall|j: int| i <= j < self.entries@.len() ==> self.entries@[j].0@ != wanted@,
            decreases i,
        {
            if self.entries[i - 1].0 == wanted {
                proof {
                    let a = self.assignments();
                    assert(a.len() == self.entries@.len());
                    assert forall|j: int| i - 1 < j < a.len() implies a[j].0 != key@ by {
                        assert(a[j].0 == self.entries@[j].0@);
                    }
                    assert(a[i - 1] == (self.entries@[i - 1].0@, self.entries@[i - 1].1@));
                    lemma_assigned_last(a, key@, i - 1);
                }
                return Some(&self.entries[i - 1].1);
            }
            i = i - 1;
        }
        proof {
            let a = self.assignments();
            assert(a.len() == self.entries@.len());
            assert forall|j: int| 0 <= j < a.len() implies a[j].0 != key@ by {
                assert(a[j].0 == self.entries@[j].0@);
            }
            lemma_assigned_absent(a, key@);
        }
        None
    }

    /// The keys of the settings, each once.
    pub fn keys(&self) -> (r: Vec<String>)
        ensures
            forall|k: Seq<char>|
                self@.contains_key(k) <==> exists|m: int| 0 <= m < r@.len() && r@[m]@ == k,
            forall|m: int, n: int| 0 <= m < n < r@.len() ==> r@[m]@ != r@[n]@,
    {
        let ghost a = self.assignments();
        let mut r: Vec<String> = Vec::new();
        let mut i: usize = 0;
        while i < self.entries.len()
            invariant
                a == self.assignments(),
                a.len() == self.entries@.len(),
                i <= self.entries@.len(),
                forall|q: Seq<char>|
                    #![trigger names(a, i as int, q)]
                    #![trigger lists(r@, q)]
                    names(a, i as int, q) <==> lists(r@, q),
                forall|m: int, n: int| 0 <= m < n < r@.len() ==> r@[m]@ != r@[n]@,
            decreases self.entries@.len() - i,
        {
            let k = &self.entries[i].0;
            assert(a[i as int].0 == k@);
            let ghost before = r@;
            if !holds_text(&r, k) {
                r.push(k.clone());
                assert(r@[before.len() as int]@ == k@);
            }
            assert forall|q: Seq<char>|
                #![trigger names(a, i + 1, q)]
                #![trigger lists(r@, q)]
                names(a, i + 1, q) <==> lists(r@, q) by {
                if names(a, i + 1, q) {
                    let j = choose|j: int| 0 <= j < i + 1 && a[j].0 == q;
                    if j < i {
                        assert(names(a, i as int, q));
                        let m = choose|m: int| 0 <= m < before.len() && before[m]@ == q;
                        assert(r@[m] == before[m]);
                    } else if !lists(before, q) {
                        assert(r@[before.len() as int]@ == q);
                    } else {
                        let m = choose|m: int| 0 <= m < before.len() && before[m]@ == q;
                        assert(r@[m] == before[m]);
                    }
                }
                if lists(r@, q) {
                    let m = choose|m: int| 0 <= m < r@.len() && r@[m]@ == q;
                    if m < before.len() {
                        assert(before[m] == r@[m]);
                        assert(lists(before, q));
                        let j = choose|j: int| 0 <= j < i && a[j].0 == q;
                        assert(names(a, i + 1, q));
                    } else {
                        assert(a[i as int].0 == q);
                    }
                }
            }
            i = i + 1;
        }
        proof {
            lemma_assigned_dom(a);
            assert forall|k: Seq<char>|
                self@.contains_key(k) <==> exists|m: int| 0 <= m < r@.len() && r@[m]@ == k by {
                assert(names(a, a.len() as int, k) <==> lists(r@, k));
            }
        }
        r
    }

    /// The port to listen on: `port` when it is set, else the default.
    pub fn listen_port(&self) -> (r: Result<u16, ConfigError>)
        ensures
            r == port_of(self@),
    {
        proof {
            reveal_strlit("port");
            assert("port"@ =~= port_key());
        }
        match self.get("port") {
            None => Ok(DEFAULT_PORT),
            Some(v) => match parse_decimal_u16(v) {
                Some(p) => Ok(p),
                None => Err(ConfigError::InvalidPort),
            },
        }
    }
}

/// Reads `s` as a decimal number from 0 to 65535.
fn parse_decimal_u16(s: &String) -> (r: Option<u16>)
    ensures
        r matches Some(p) ==> is_decimal(s@) && decimal_value(s@) == p,
        r is None ==> !(is_decimal(s@) && decimal_value(s@) <= 65535),
{
    let t = s.as_str();
    let n = t.unicode_len();
    if n == 0 {
        return None;
    }
    let mut acc: u32 = 0;
    let mut too_big = false;
    let mut i: usize = 0;
    while i < n
        invariant
            n == s@.len(),
            t@ == s@,
            i <= n,
            forall|j: int| 0 <= j < i ==> is_digit(#[trigger] s@[j]),
            decimal_value(s@.take(i as int)) >= 0,
            !too_big ==> acc as int == decimal_value(s@.take(i as int)) && acc <= 65535,
            too_big ==> decimal_value(s@.take(i as int)) > 65535,
        decreases n - i,
    {
        let c = t.get_char(i);
        if c < '0' || c > '9' {
            return None;
        }
        let d = (c as u32) - ('0' as u32);
        assert(s@.take(i as int + 1).drop_last() =~= s@.take(i as int));
        let ghost prev = decimal_value(s@.take(i as int));
        assert(decimal_value(s@.take(i as int + 1)) == prev * 10 + d);
        if !too_big {
            let next = acc * 10 + d;
            if next > 65535 {
                too_big = true;
            } else {
                acc = next;
            }
        } else {
            assert(prev * 10 + d > 65535) by (nonlinear_arith)
                requires prev > 65535, d >= 0;
        }
        assert(prev * 10 + d >= 0) by (nonlinear_arith)
            requires prev >= 0, d >= 0;
        i = i + 1;
    }
    assert(s@.take(n as int) =~= s@);
    if too_big {
        None
    } else {
        Some(acc as u16)
    }
}

/// The setting that the environment variable `name` overrides, if any.
fn override_key(name: &String) -> (r: Option<String>)
    ensures
        r matches Some(k) ==> env_key(name@) == Some(k@),
        r is None ==> env_key(name@) is None,
{
    let l = lowercase(name.as_str());
    let ls = l.as_str();
    let n = ls.unicode_len();
    if n < 5 {
        return None;
    }
    let c0 = ls.get_char(0);
    let c1 = ls.get_char(1);
    let c2 = ls.get_char(2);
    let c3 = ls.get_char(3);
    let c4 = ls.get_char(4);
    if c0 == 's' && c1 == 'p' && c2 == 'o' && c3 == 't' && c4 == '_' {
        assert(l@.subrange(0, 5) =~= env_prefix());
        let rest = ls.substring_char(5, n);
        Some(String::from_str(rest))
    } else {
        assert(l@.subrange(0, 5) != env_prefix()) by {
            let p = l@.subrange(0, 5);
            assert(p[0] == c0 && p[1] == c1 && p[2] == c2 && p[3] == c3 && p[4] == c4);
        }
        None
    }
}

/// Merges the base source with the environment. `base` is `None` when the
/// base source does not exist; `env` lists the environment's variables in
/// order. Variables whose lowercased name starts with `spot_` override the
/// setting named by the rest of it; keys are compared lowercased.
pub fn load(base: Option<Vec<(String, String)>>, env: Vec<(String, String)>) -> (r: Result<
    ResolvedConfig,
    ConfigError,
>)
    ensures
        base is None <==> r == Err::<ResolvedConfig, ConfigError>(ConfigError::MissingSource),
        base is Some <==> r is Ok,
        r matches Ok(c) ==> c@ == resolved(base->0@, env@),
{
    let base = match base {
        None => return Err(ConfigError::MissingSource),
        Some(b) => b,
    };
    let mut entries: Vec<(String, String)> = Vec::new();
    let mut i: usize = 0;
    while i < base.len()
        invariant
            i <= base.len(),
            entries@.len() == i,
            views_of(entries@) =~= base_assignments(
                base@.take(i as int),
            ),
        decreases base.len() - i,
    {
        let ghost before = entries@;
        let k = lowercase(base[i].0.as_str());
        let v = base[i].1.clone();
        entries.push((k, v));
        assert(entries@ =~= before.push((k, v)));
        assert(base@.take(i as int + 1) =~= base@.take(i as int).push(base@[i as int]));
        assert forall|j: int| 0 <= j < i + 1 implies views_of(entries@)[j] == base_assignments(
            base@.take(i as int + 1),
        )[j] by {
            if j < i {
                assert(views_of(before)[j] == base_assignments(base@.take(i as int))[j]);
                assert(entries@[j] == before[j]);
            } else {
                assert(entries@[j] == (k, v));
                assert(base@.take(i as int + 1)[j] == base@[i as int]);
            }
        }
        assert(views_of(entries@) =~= base_assignments(base@.take(i as int + 1)));
        i = i + 1;
    }
    assert(base@.take(base.len() as int) =~= base@);
    let ghost start = views_of(entries@);
    let mut j: usize = 0;
    while j < env.len()
        invariant
            j <= env.len(),
            start == base_assignments(base@),
            views_of(entries@) =~= start + env_assignments(
                env@.take(j as int),
            ),
        decreases env.len() - j,
    {
        let ghost before = views_of(entries@);
        assert(env@.take(j as int + 1).drop_last() =~= env@.take(j as int));
        match override_key(&env[j].0) {
            Some(k) => {
                let v = env[j].1.clone();
                entries.push((k, v));
                assert(views_of(entries@) =~= before.push(
                    (k@, v@),
                ));
            },
            None => {},
        }
        j = j + 1;
    }
    assert(env@.take(env.len() as int) =~= env@);
    Ok(ResolvedConfig { entries })
}

} // verus!
