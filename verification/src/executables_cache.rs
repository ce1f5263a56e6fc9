//! The names of the commands that the shell knows: its builtins and the
//! executable files found in the directories of `PATH`.

use vstd::prelude::*;

use crate::text::{chars_of, contains_text, owned, push_char, push_str, texts};

verus! {

/// The builtin commands, which are known before any directory is searched.
pub open spec fn builtin_names() -> Seq<Seq<char>> {
    seq!["exit"@, "cd"@, "exec"@]
}

/// The pieces of a text between the separator characters, in order; a text
/// with `n` separators has `n + 1` pieces, some of them maybe empty.
pub open spec fn split_on(cs: Seq<char>, sep: char) -> Seq<Seq<char>>
    decreases cs.len(),
{
    if cs.len() == 0 {
        seq![Seq::empty()]
    } else {
        let p = split_on(cs.drop_last(), sep);
        if cs.last() == sep {
            p.push(Seq::empty())
        } else {
            p.update(p.len() - 1, p.last().push(cs.last()))
        }
    }
}

pub proof fn lemma_split_on_len(cs: Seq<char>, sep: char)
    ensures
        split_on(cs, sep).len() >= 1,
    decreases cs.len(),
{
    if cs.len() > 0 {
        lemma_split_on_len(cs.drop_last(), sep);
    }
}

/// The directories named in a `PATH` value: the pieces between colons.
pub fn path_dirs(path: &str) -> (r: Vec<String>)
    ensures
        texts(r@) == split_on(path@, ':'),
{
    let chars = chars_of(path);
    let mut dirs: Vec<String> = Vec::new();
    let mut cur = String::new();
    let mut i: usize = 0;
    while i < chars.len()
        invariant
            i <= chars.len(),
            chars@ == path@,
            texts(dirs@).push(cur@) == split_on(chars@.take(i as int), ':'),
        decreases chars.len() - i,
    {
        let c = chars[i];
        let ghost before = texts(dirs@).push(cur@);
        assert(chars@.take(i as int + 1).drop_last() =~= chars@.take(i as int));
        if c == ':' {
            let piece = cur;
            dirs.push(piece);
            cur = String::new();
            assert(texts(dirs@).push(cur@) =~= before.push(Seq::empty()));
        } else {
            push_char(&mut cur, c);
            assert(texts(dirs@).push(cur@) =~= before.update(before.len() - 1, before.last().push(c)));
        }
        i = i + 1;
    }
    assert(chars@.take(chars@.len() as int) =~= path@);
    dirs.push(cur);
    dirs
}

/// Whether a directory entry can be run: it is a file and one of its execute
/// permission bits is set.
pub fn is_executable_mode(is_file: bool, mode: u32) -> (r: bool)
    ensures
        r == (is_file && mode & 0o111 != 0),
{
    is_file && mode & 0o111 != 0
}

/// The path of an entry of a directory: the directory, a slash, the name.
pub fn entry_path(dir: &str, file_name: &str) -> (r: String)
    ensures
        r@ == dir@ + seq!['/'] + file_name@,
{
    let mut s = owned(dir);
    push_char(&mut s, '/');
    push_str(&mut s, file_name);
    s
}

/// The known command names, filled once.
pub struct ExecutablesCache {
    names: Vec<String>,
    populated: bool,
}

impl ExecutablesCache {
    /// The names known, in the order they were added.
    pub closed spec fn known(&self) -> Seq<Seq<char>> {
        texts(self.names@)
    }

    /// Whether the cache has been filled.
    pub closed spec fn filled(&self) -> bool {
        self.populated
    }

    /// A cache that is not filled knows no name.
    #[verifier::type_invariant]
    spec fn unfilled_is_empty(self) -> bool {
        !self.populated ==> self.names@.len() == 0
    }

    /// An empty cache, not filled yet.
    pub fn new() -> (r: Self)
        ensures
            r.known() == Seq::<Seq<char>>::empty(),
            !r.filled(),
    {
        let r = ExecutablesCache { names: Vec::new(), populated: false };
        assert(r.known() =~= Seq::<Seq<char>>::empty());
        r
    }

    /// Whether the cache is filled; a cache that is not knows no name.
    pub fn is_populated(&self) -> (r: bool)
        ensures
            r == self.filled(),
            !r ==> self.known() == Seq::<Seq<char>>::empty(),
    {
        proof {
            use_type_invariant(self);
        }
        assert(!self.populated ==> self.known() =~= Seq::<Seq<char>>::empty());
        self.populated
    }

    /// Fills the cache, once: the builtins, then the names of the executables
    /// found. A cache that is already filled stays as it is.
    pub fn populate_cache(&mut self, found: Vec<String>)
        ensures
            old(self).filled() ==> *final(self) == *old(self),
            !old(self).filled() ==> final(self).known() == builtin_names() + texts(found@),
            final(self).filled(),
    {
        proof {
            use_type_invariant(&*self);
        }
        if self.populated {
            return;
        }
        let mut names: Vec<String> = Vec::new();
        names.push(owned("exit"));
        names.push(owned("cd"));
        names.push(owned("exec"));
        let ghost k1 = texts(names@);
        assert(k1 =~= builtin_names());
        let mut i: usize = 0;
        while i < found.len()
            invariant
                i <= found.len(),
                texts(names@) == k1 + texts(found@.take(i as int)),
            decreases found.len() - i,
        {
            let ghost before = texts(names@);
            names.push(found[i].clone());
            assert(texts(found@.take(i as int + 1)) =~= texts(found@.take(i as int)).push(
                found@[i as int]@,
            ));
            assert(texts(names@) =~= before.push(found@[i as int]@));
            i = i + 1;
        }
        assert(found@.take(found@.len() as int) =~= found@);
        *self = ExecutablesCache { names, populated: true };
    }

    /// Whether a command of that name is among the names known so far; a
    /// cache that is not filled knows none.
    pub fn knows(&self, executable: &str) -> (r: bool)
        ensures
            r == self.known().contains(executable@),
            !self.filled() ==> !r,
    {
        proof {
            use_type_invariant(self);
        }
        contains_text(&self.names, executable)
    }

    /// Whether a command of that name is known, the cache being filled first
    /// with the builtins and the names found, if it is not filled yet.
    pub fn lookup(&mut self, found: Vec<String>, executable: &str) -> (r: bool)
        ensures
            final(self).filled(),
            old(self).filled() ==> *final(self) == *old(self),
            !old(self).filled() ==> final(self).known() == builtin_names() + texts(found@),
            r == final(self).known().contains(executable@),
    {
        self.populate_cache(found);
        self.knows(executable)
    }

    /// The names known.
    pub fn names(&self) -> (r: &Vec<String>)
        ensures
            texts(r@) == self.known(),
    {
        &self.names
    }
}


/// Once the cache is filled, the builtins are known: after `populate_cache`
/// on a cache that was not filled, `knows` finds `exit`, `cd` and `exec`, and
/// each name that was found, and nothing else.
pub proof fn lemma_populated_knows(after: Seq<Seq<char>>, found: Seq<Seq<char>>, name: Seq<char>)
    requires
        after == builtin_names() + found,
    ensures
        after.contains(name) <==> (builtin_names().contains(name) || found.contains(name)),
{
    if builtin_names().contains(name) {
        let i = choose|i: int| 0 <= i < builtin_names().len() && builtin_names()[i] == name;
        assert(after[i] == name);
    } else if found.contains(name) {
        let i = choose|i: int| 0 <= i < found.len() && found[i] == name;
        assert(after[3 + i] == name);
    }
    if after.contains(name) {
        let i = choose|i: int| 0 <= i < after.len() && after[i] == name;
        if i < 3 {
            assert(builtin_names()[i] == name);
        } else {
            assert(found[i - 3] == name);
        }
    }
}

} // verus!
