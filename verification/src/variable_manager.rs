//! Shell variables: names kept in lower case, with their values.

use vstd::prelude::*;

use crate::text::{owned, str_equal};

verus! {

/// The name for what `str::to_lowercase` answers: the lower-case form of a
/// text.
pub uninterp spec fn lowercase(s: Seq<char>) -> Seq<char>;

/// Whether every character of a text is ASCII.
pub open spec fn is_ascii_text(s: Seq<char>) -> bool {
    forall|i: int| 0 <= i < s.len() ==> (#[trigger] s[i] as int) < 128
}

/// An ASCII upper-case letter in lower case; any other character as it is.
pub open spec fn ascii_lower_char(c: char) -> char {
    if 65 <= (c as int) <= 90 {
        ((c as int) + 32) as char
    } else {
        c
    }
}

/// A text with its ASCII upper-case letters in lower case.
pub open spec fn ascii_lower(s: Seq<char>) -> Seq<char> {
    s.map_values(|c: char| ascii_lower_char(c))
}

/// std's `str::to_lowercase`. Its answer is a function of the text alone, by
/// Unicode's case mapping, and is named. Unicode maps the ASCII letters `A` to
/// `Z` to `a` to `z` and leaves every other ASCII character as it is, so of an
/// ASCII text the answer is stated; of other texts nothing more is stated.
#[verifier::external_body]
fn to_lowercase(s: &str) -> (r: String)
    ensures
        r@ == lowercase(s@),
        is_ascii_text(s@) ==> r@ == ascii_lower(s@),
{
    s.to_lowercase()
}

/// The map that a list of settings makes: each setting, in order, gives its
/// name its value.
pub open spec fn settings_map(pairs: Seq<(Seq<char>, Seq<char>)>) -> Map<Seq<char>, Seq<char>>
    decreases pairs.len(),
{
    if pairs.len() == 0 {
        Map::empty()
    } else {
        settings_map(pairs.drop_last()).insert(pairs.last().0, pairs.last().1)
    }
}

/// The settings without those of one name.
pub open spec fn without_name(pairs: Seq<(Seq<char>, Seq<char>)>, name: Seq<char>) -> Seq<
    (Seq<char>, Seq<char>),
>
    decreases pairs.len(),
{
    if pairs.len() == 0 {
        Seq::empty()
    } else {
        let init = without_name(pairs.drop_last(), name);
        if pairs.last().0 == name {
            init
        } else {
            init.push(pairs.last())
        }
    }
}

pub proof fn lemma_without_name(pairs: Seq<(Seq<char>, Seq<char>)>, name: Seq<char>)
    ensures
        settings_map(without_name(pairs, name)) == settings_map(pairs).remove(name),
    decreases pairs.len(),
{
    if pairs.len() == 0 {
        assert(settings_map(pairs).remove(name) =~= Map::<Seq<char>, Seq<char>>::empty());
    } else {
        lemma_without_name(pairs.drop_last(), name);
        let init = without_name(pairs.drop_last(), name);
        if pairs.last().0 == name {
            assert(settings_map(pairs).remove(name) =~= settings_map(pairs.drop_last()).remove(
                name,
            ));
        } else {
            assert(init.push(pairs.last()).drop_last() =~= init);
            assert(settings_map(pairs).remove(name) =~= settings_map(pairs.drop_last()).remove(
                name,
            ).insert(pairs.last().0, pairs.last().1));
        }
    }
}

/// When no setting from the `i`-th on names `key`, all the settings give
/// `key` what the first `i` of them give it.
pub proof fn lemma_settings_suffix(s: Seq<(Seq<char>, Seq<char>)>, i: int, key: Seq<char>)
    requires
        0 <= i <= s.len(),
        forall|j: int| i <= j < s.len() ==> #[trigger] s[j].0 != key,
    ensures
        settings_map(s).contains_key(key) == settings_map(s.take(i)).contains_key(key),
        settings_map(s).contains_key(key) ==> settings_map(s)[key] == settings_map(s.take(i))[key],
    decreases s.len(),
{
    if s.len() == i {
        assert(s.take(i) =~= s);
    } else {
        let d = s.drop_last();
        assert(forall|j: int| i <= j < d.len() ==> #[trigger] d[j].0 != key) by {
            assert forall|j: int| i <= j < d.len() implies #[trigger] d[j].0 != key by {
                assert(d[j] == s[j]);
            }
        }
        lemma_settings_suffix(d, i, key);
        assert(d.take(i) =~= s.take(i));
        assert(s[s.len() - 1].0 != key);
    }
}

/// The value of a variable after the values are put in place of `$` words:
/// a word that begins with `$` becomes the value of the variable that the rest
/// of the word names (in lower case), or the empty text when there is none;
/// other words stay.
pub open spec fn expanded(arg: Seq<char>, vars: Map<Seq<char>, Seq<char>>) -> Seq<char> {
    if arg.len() > 0 && arg[0] == '$' {
        let key = lowercase(lowercase(arg.subrange(1, arg.len() as int)));
        if vars.contains_key(key) {
            vars[key]
        } else {
            Seq::empty()
        }
    } else {
        arg
    }
}

#[derive(Debug, Clone)]
pub struct VariableManager {
    variables: Vec<(String, String)>,
}

impl VariableManager {
    /// The settings, in the order they were made.
    pub closed spec fn settings(&self) -> Seq<(Seq<char>, Seq<char>)> {
        self.variables@.map_values(|p: (String, String)| (p.0@, p.1@))
    }

    /// The variables and their values.
    pub closed spec fn vars(&self) -> Map<Seq<char>, Seq<char>> {
        settings_map(self.settings())
    }

    /// The variables given, each under its lower-case name.
    pub fn from_vars(vars: Vec<(String, String)>) -> (r: Self)
        ensures
            r.vars() == settings_map(
                vars@.map_values(|p: (String, String)| (lowercase(p.0@), p.1@)),
            ),
    {
        let ghost given = vars@.map_values(|p: (String, String)| (lowercase(p.0@), p.1@));
        let mut m = VariableManager { variables: Vec::new() };
        let mut i: usize = 0;
        while i < vars.len()
            invariant
                i <= vars.len(),
                given == vars@.map_values(|p: (String, String)| (lowercase(p.0@), p.1@)),
                m.settings() == given.take(i as int),
            decreases vars.len() - i,
        {
            let key = to_lowercase(vars[i].0.as_str());
            let value = vars[i].1.clone();
            let ghost before = m.settings();
            m.variables.push((key, value));
            assert(m.settings() =~= before.push((key@, value@)));
            assert(given.take(i as int + 1) =~= given.take(i as int).push(given[i as int]));
            i = i + 1;
        }
        assert(given.take(vars.len() as int) =~= given);
        m
    }

    /// Sets a variable; its name is kept in lower case.
    pub fn set_var(&mut self, var: &str, val: &str)
        ensures
            final(self).vars() == old(self).vars().insert(lowercase(var@), val@),
            is_ascii_text(var@) ==> lowercase(var@) == ascii_lower(var@),
    {
        let key = to_lowercase(var);
        let ghost before = self.settings();
        self.variables.push((key, owned(val)));
        assert(self.settings() =~= before.push((lowercase(var@), val@)));
        assert(self.settings().drop_last() =~= before);
    }

    /// The value of a variable, looked up by its lower-case name.
    pub fn get_var(&self, var: &str) -> (r: Option<&String>)
        ensures
            match r {
                Some(v) => self.vars().contains_key(lowercase(var@)) && v@ == self.vars()[lowercase(
                    var@,
                )],
                None => !self.vars().contains_key(lowercase(var@)),
            },
            is_ascii_text(var@) ==> lowercase(var@) == ascii_lower(var@),
    {
        let key = to_lowercase(var);
        self.lookup(key.as_str())
    }

    /// The value set last under exactly this name.
    fn lookup(&self, key: &str) -> (r: Option<&String>)
        ensures
            match r {
                Some(v) => self.vars().contains_key(key@) && v@ == self.vars()[key@],
                None => !self.vars().contains_key(key@),
            },
    {
        let ghost s = self.settings();
        let mut i: usize = self.variables.len();
        while i > 0
            invariant
                i <= self.variables.len(),
                s == self.settings(),
                s.len() == self.variables.len(),
                forall|j: int| i <= j < s.len() ==> #[trigger] s[j].0 != key@,
            decreases i,
        {
            assert(s[i as int - 1] == (
                self.variables@[i as int - 1].0@,
                self.variables@[i as int - 1].1@,
            ));
            if str_equal(self.variables[i - 1].0.as_str(), key) {
                proof {
                    lemma_settings_suffix(s, i as int, key@);
                    assert(s.take(i as int).drop_last() =~= s.take(i as int - 1));
                }
                return Some(&self.variables[i - 1].1);
            }
            i = i - 1;
        }
        proof {
            lemma_settings_suffix(s, 0, key@);
            assert(s.take(0) =~= Seq::<(Seq<char>, Seq<char>)>::empty());
        }
        None
    }

    /// Removes a variable, by its name in lower case, as `set_var` stores it.
    pub fn remove_var(&mut self, var: &str)
        ensures
            final(self).vars() == old(self).vars().remove(lowercase(var@)),
            is_ascii_text(var@) ==> lowercase(var@) == ascii_lower(var@),
    {
        let key = to_lowercase(var);
        let ghost s = self.settings();
        let mut kept: Vec<(String, String)> = Vec::new();
        let mut i: usize = 0;
        while i < self.variables.len()
            invariant
                i <= self.variables.len(),
                s == self.settings(),
                kept@.map_values(|p: (String, String)| (p.0@, p.1@)) == without_name(
                    s.take(i as int),
                    key@,
                ),
            decreases self.variables.len() - i,
        {
            let ghost before = kept@.map_values(|p: (String, String)| (p.0@, p.1@));
            assert(s.take(i as int + 1).drop_last() =~= s.take(i as int));
            assert(s[i as int] == (self.variables@[i as int].0@, self.variables@[i as int].1@));
            if !str_equal(self.variables[i].0.as_str(), key.as_str()) {
                let pair = (self.variables[i].0.clone(), self.variables[i].1.clone());
                kept.push(pair);
                assert(kept@.map_values(|p: (String, String)| (p.0@, p.1@)) =~= before.push(
                    s[i as int],
                ));
            }
            i = i + 1;
        }
        assert(s.take(s.len() as int) =~= s);
        proof {
            lemma_without_name(s, key@);
        }
        self.variables = kept;
    }

    /// Puts the values of variables in place of the words that begin with
    /// `$`.
    pub fn replace_vars_in_args(&mut self, args: &mut Vec<String>)
        ensures
            *final(self) == *old(self),
            final(args)@.len() == old(args)@.len(),
            forall|i: int|
                0 <= i < old(args)@.len() ==> #[trigger] final(args)@[i]@ == expanded(
                    old(args)@[i]@,
                    old(self).vars(),
                ),
    {
        let mut i: usize = 0;
        while i < args.len()
            invariant
                i <= args.len(),
                args@.len() == old(args)@.len(),
                forall|j: int| i <= j < args@.len() ==> args@[j] == old(args)@[j],
                forall|j: int|
                    0 <= j < i ==> #[trigger] args@[j]@ == expanded(old(args)@[j]@, self.vars()),
            decreases args.len() - i,
        {
            let n = args[i].as_str().unicode_len();
            if n > 0 && args[i].as_str().get_char(0) == '$' {
                let rest = args[i].as_str().substring_char(1, n);
                let name = to_lowercase(rest);
                let value = match self.get_var(name.as_str()) {
                    Some(v) => v.clone(),
                    None => String::new(),
                };
                proof {
                    if !self.vars().contains_key(lowercase(name@)) {
                        assert(value@ =~= Seq::<char>::empty());
                    }
                }
                args.set(i, value);
            }
            i = i + 1;
        }
    }
}


/// A variable reads back the value it was set to: after `set_var(var, val)`,
/// `get_var(var)` finds `val`.
pub proof fn lemma_get_after_set(
    before: Map<Seq<char>, Seq<char>>,
    after: Map<Seq<char>, Seq<char>>,
    var: Seq<char>,
    val: Seq<char>,
)
    requires
        after == before.insert(lowercase(var), val),
    ensures
        after.contains_key(lowercase(var)),
        after[lowercase(var)] == val,
{
}

/// Setting a variable leaves every variable of another lower-case name as it
/// was.
pub proof fn lemma_set_keeps_others(
    before: Map<Seq<char>, Seq<char>>,
    after: Map<Seq<char>, Seq<char>>,
    var: Seq<char>,
    val: Seq<char>,
    other: Seq<char>,
)
    requires
        after == before.insert(lowercase(var), val),
        lowercase(other) != lowercase(var),
    ensures
        after.contains_key(lowercase(other)) == before.contains_key(lowercase(other)),
        before.contains_key(lowercase(other)) ==> after[lowercase(other)] == before[lowercase(
            other,
        )],
{
}

/// Removing a variable undoes setting it: after `set_var(var, val)` and
/// `remove_var(var)`, `get_var(var)` finds nothing, and every variable of
/// another lower-case name is as it was before the two calls.
pub proof fn lemma_remove_after_set(
    before: Map<Seq<char>, Seq<char>>,
    set: Map<Seq<char>, Seq<char>>,
    removed: Map<Seq<char>, Seq<char>>,
    var: Seq<char>,
    val: Seq<char>,
    other: Seq<char>,
)
    requires
        set == before.insert(lowercase(var), val),
        removed == set.remove(lowercase(var)),
        lowercase(other) != lowercase(var),
    ensures
        !removed.contains_key(lowercase(var)),
        removed.contains_key(lowercase(other)) == before.contains_key(lowercase(other)),
        before.contains_key(lowercase(other)) ==> removed[lowercase(other)] == before[lowercase(
            other,
        )],
{
}

} // verus!
