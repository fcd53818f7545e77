use vstd::prelude::*;

verus! {

/// Characters that separate the appkey from its arguments.
pub open spec fn is_blank(c: char) -> bool {
    c == ' ' || c == '\t' || c == '\n' || c == '\r'
}

/// Tests one character for [`is_blank`].
pub fn blank(c: char) -> (r: bool)
    ensures
        r == is_blank(c),
{
    c == ' ' || c == '\t' || c == '\n' || c == '\r'
}

/// The words of `s`: its maximal runs of non-blank characters, in order.
pub open spec fn words(s: Seq<char>) -> Seq<Seq<char>>
    decreases s.len(),
{
    if s.len() == 0 {
        Seq::empty()
    } else {
        let p = s.drop_last();
        let c = s.last();
        if is_blank(c) {
            words(p)
        } else if p.len() == 0 || is_blank(p.last()) {
            words(p).push(seq![c])
        } else {
            words(p).update(words(p).len() - 1, words(p).last().push(c))
        }
    }
}

/// The words of `s` are those before the current one, then the current one,
/// which runs from `start` to the end of `s`.
proof fn lemma_words_in_word(s: Seq<char>, start: int)
    requires
        0 <= start < s.len(),
        start == 0 || is_blank(s[start - 1]),
        forall|j: int| start <= j < s.len() ==> !is_blank(#[trigger] s[j]),
    ensures
        words(s) == words(s.take(start)).push(s.subrange(start, s.len() as int)),
    decreases s.len(),
{
    let p = s.drop_last();
    let c = s.last();
    if s.len() == start + 1 {
        assert(p =~= s.take(start));
        assert(seq![c] =~= s.subrange(start, s.len() as int));
    } else {
        lemma_words_in_word(p, start);
        assert(p.take(start) =~= s.take(start));
        assert(p.subrange(start, p.len() as int).push(c) =~= s.subrange(start, s.len() as int));
    }
}

/// The arguments of a command as separate words: split at blanks, with no
/// quoting and no expansion.
pub fn split_words(s: &str) -> (r: Vec<String>)
    ensures
        r@.map_values(|w: String| w@) == words(s@),
{
    let n = s.unicode_len();
    let mut r: Vec<String> = Vec::new();
    let mut start: usize = 0;
    let mut in_word = false;
    let mut i: usize = 0;
    while i < n
        invariant
            n == s@.len(),
            i <= n,
            start <= i,
            in_word ==> start < i && (start == 0 || is_blank(s@[start - 1])) && forall|j: int|
                start <= j < i ==> !is_blank(#[trigger] s@[j]),
            in_word ==> words(s@.take(i as int)) == r@.map_values(|w: String| w@).push(
                s@.subrange(start as int, i as int),
            ),
            !in_word ==> words(s@.take(i as int)) == r@.map_values(|w: String| w@),
            !in_word && i > 0 ==> is_blank(s@[i - 1]),
        decreases n - i,
    {
        let c = s.get_char(i);
        let ghost t = s@.take(i as int + 1);
        assert(t.drop_last() =~= s@.take(i as int));
        assert(t.last() == c);
        if blank(c) {
            if in_word {
                proof {
                    lemma_words_in_word(s@.take(i as int), start as int);
                    assert(s@.take(i as int).take(start as int) =~= s@.take(start as int));
                    assert(s@.take(i as int).subrange(start as int, i as int) =~= s@.subrange(
                        start as int,
                        i as int,
                    ));
                }
                let w = String::from_str(s.substring_char(start, i));
                let ghost before = r@;
                r.push(w);
                assert(r@.map_values(|w: String| w@) =~= before.map_values(|w: String| w@).push(
                    s@.subrange(start as int, i as int),
                ));
                in_word = false;
            }
        } else {
            if !in_word {
                start = i;
                in_word = true;
                assert(s@.subrange(start as int, i as int + 1) =~= seq![c]);
            } else {
                let ghost prev = r@.map_values(|w: String| w@);
                let ghost p = s@.take(i as int);
                assert(p.last() == s@[i - 1]);
                assert(!is_blank(p.last()));
                assert(words(p) == prev.push(s@.subrange(start as int, i as int)));
                assert(s@.subrange(start as int, i as int).push(c) =~= s@.subrange(
                    start as int,
                    i as int + 1,
                ));
                assert(words(t) =~= prev.push(s@.subrange(start as int, i as int + 1)));
            }
        }
        i = i + 1;
    }
    if in_word {
        let w = String::from_str(s.substring_char(start, n));
        let ghost before = r@;
        r.push(w);
        assert(r@.map_values(|w: String| w@) =~= before.map_values(|w: String| w@).push(
            s@.subrange(start as int, n as int),
        ));
    }
    assert(s@.take(n as int) =~= s@);
    r
}

/// `i` is where the first token of `s` ends: no blank before it, and a blank
/// at it unless it is the end of `s`.
pub open spec fn token_end_at(s: Seq<char>, i: int) -> bool {
    &&& 0 <= i <= s.len()
    &&& forall|j: int| 0 <= j < i ==> !is_blank(#[trigger] s[j])
    &&& i < s.len() ==> is_blank(s[i])
}

/// The length of the first token of `s`.
pub open spec fn token_end(s: Seq<char>) -> int {
    choose|i: int| token_end_at(s, i)
}

/// The appkey that a command line names: everything before the first blank.
pub open spec fn appkey_of(s: Seq<char>) -> Seq<char> {
    s.take(token_end(s))
}

/// The arguments of a command line, verbatim: everything after the first blank.
pub open spec fn arguments_of(s: Seq<char>) -> Seq<char> {
    if token_end(s) < s.len() {
        s.skip(token_end(s) + 1)
    } else {
        Seq::empty()
    }
}

/// A command line with its appkey replaced by the executable's path.
pub open spec fn expand(path: Seq<char>, args: Seq<char>) -> Seq<char> {
    if args.len() == 0 {
        path
    } else {
        path + seq![' '] + args
    }
}

pub proof fn lemma_token_end_unique(s: Seq<char>, i: int, k: int)
    requires
        token_end_at(s, i),
        token_end_at(s, k),
    ensures
        i == k,
{
    if i < k {
        assert(is_blank(s[i]));
    } else if k < i {
        assert(is_blank(s[k]));
    }
}

pub proof fn lemma_token_end(s: Seq<char>, i: int)
    requires
        token_end_at(s, i),
    ensures
        token_end(s) == i,
{
    lemma_token_end_unique(s, i, token_end(s));
}

/// The registry of appkeys: each name bound to the path of an executable.
pub struct Appkeys {
    entries: Vec<(String, String)>,
}

impl Appkeys {
    /// The bindings, in the order they were made.
    pub closed spec fn entries(&self) -> Seq<(Seq<char>, Seq<char>)> {
        self.entries@.map_values(|e: (String, String)| (e.0@, e.1@))
    }

    /// No name is bound twice.
    pub open spec fn wf(&self) -> bool {
        forall|i: int, j: int|
            0 <= i < j < self.entries().len() ==> #[trigger] self.entries()[i].0
                != #[trigger] self.entries()[j].0
    }

    /// `name` is bound.
    pub open spec fn contains(&self, name: Seq<char>) -> bool {
        exists|i: int| 0 <= i < self.entries().len() && #[trigger] self.entries()[i].0 == name
    }

    /// The path bound to `name`, where it is bound.
    pub open spec fn path_of(&self, name: Seq<char>) -> Seq<char>
        recommends
            self.contains(name),
    {
        let i = choose|i: int| 0 <= i < self.entries().len() && #[trigger] self.entries()[i].0 == name;
        self.entries()[i].1
    }

    /// The command line that runs for `cmdline`, or `None` where its appkey
    /// is not bound.
    pub open spec fn resolve_spec(&self, cmdline: Seq<char>) -> Option<Seq<char>> {
        if self.contains(appkey_of(cmdline)) {
            Some(expand(self.path_of(appkey_of(cmdline)), arguments_of(cmdline)))
        } else {
            None
        }
    }

    /// An empty registry.
    pub fn new() -> (r: Appkeys)
        ensures
            r.wf(),
            r.entries().len() == 0,
    {
        let r = Appkeys { entries: Vec::new() };
        assert(r.entries() =~= Seq::empty());
        r
    }

    /// Finds the slot that binds `name`.
    fn find(&self, name: &String) -> (r: Option<usize>)
        requires
            self.wf(),
        ensures
            r is None <==> !self.contains(name@),
            r matches Some(i) ==> i < self.entries().len() && self.entries()[i as int].0 == name@
                && self.path_of(name@) == self.entries()[i as int].1,
    {
        let mut i: usize = 0;
        while i < self.entries.len()
            invariant
                self.wf(),
                i <= self.entries.len(),
                self.entries().len() == self.entries@.len(),
                forall|j: int| 0 <= j < i ==> #[trigger] self.entries()[j].0 != name@,
            decreases self.entries.len() - i,
        {
            if self.entries[i].0 == *name {
                assert(self.entries()[i as int].0 == name@);
                assert(self.contains(name@));
                let ghost k = choose|k: int|
                    0 <= k < self.entries().len() && #[trigger] self.entries()[k].0 == name@;
                assert(k == i) by {
                    if k != i {
                        if k < i {
                            assert(self.entries()[k].0 != name@);
                        } else {
                            assert(self.entries()[i as int].0 != self.entries()[k].0);
                        }
                    }
                };
                return Some(i);
            }
            i = i + 1;
        }
        None
    }

    /// Binds `name` to `path`, replacing an earlier binding of that name.
    pub fn insert(&mut self, name: String, path: String)
        requires
            old(self).wf(),
        ensures
            final(self).wf(),
            final(self).contains(name@),
            final(self).path_of(name@) == path@,
            forall|k: Seq<char>| k != name@ ==> (#[trigger] final(self).contains(k)
                == old(self).contains(k)),
            forall|k: Seq<char>| k != name@ && old(self).contains(k) ==> #[trigger] final(self).path_of(k) == old(self).path_of(k),
    {
        match self.find(&name) {
            Some(i) => {
                let ghost before = self.entries();
                let ghost n = name@;
                self.entries.set(i, (name, path));
                assert(self.entries() =~= before.update(i as int, (n, path@)));
                assert(self.entries()[i as int].0 == n);
                assert forall|k: Seq<char>| k != n implies #[trigger] self.contains(k) == old(self).contains(k) by {
                    if old(self).contains(k) {
                        let j = choose|j: int|
                            0 <= j < before.len() && #[trigger] before[j].0 == k;
                        assert(self.entries()[j].0 == k);
                    }
                    if self.contains(k) {
                        let j = choose|j: int|
                            0 <= j < self.entries().len() && #[trigger] self.entries()[j].0 == k;
                        assert(before[j].0 == k);
                    }
                };
                assert forall|k: Seq<char>| k != n && old(self).contains(k) implies #[trigger] self.path_of(k)
                    == old(self).path_of(k) by {
                    let j = choose|j: int| 0 <= j < before.len() && #[trigger] before[j].0 == k;
                    let j2 = choose|j: int|
                        0 <= j < self.entries().len() && #[trigger] self.entries()[j].0 == k;
                    assert(self.entries()[j].0 == k);
                    assert(j == j2) by {
                        if j != j2 {
                            if j < j2 {
                                assert(before[j].0 != before[j2].0);
                            } else {
                                assert(before[j2].0 != before[j].0);
                            }
                        }
                    };
                };
                assert(self.contains(n));
                let ghost j = choose|j: int|
                    0 <= j < self.entries().len() && #[trigger] self.entries()[j].0 == n;
                assert(j == i as int) by {
                    if j != i as int {
                        if j < i as int {
                            assert(before[j].0 != before[i as int].0);
                        } else {
                            assert(before[i as int].0 != before[j].0);
                        }
                    }
                };
            },
            None => {
                let ghost before = self.entries();
                let ghost n = name@;
                self.entries.push((name, path));
                assert(self.entries() =~= before.push((n, path@)));
                let ghost last = before.len() as int;
                assert(self.entries()[last].0 == n);
                assert forall|k: Seq<char>| k != n implies #[trigger] self.contains(k) == old(self).contains(k) by {
                    if old(self).contains(k) {
                        let j = choose|j: int|
                            0 <= j < before.len() && #[trigger] before[j].0 == k;
                        assert(self.entries()[j].0 == k);
                    }
                    if self.contains(k) {
                        let j = choose|j: int|
                            0 <= j < self.entries().len() && #[trigger] self.entries()[j].0 == k;
                        assert(before[j].0 == k);
                    }
                };
                assert forall|k: Seq<char>| k != n && old(self).contains(k) implies #[trigger] self.path_of(k)
                    == old(self).path_of(k) by {
                    let j = choose|j: int| 0 <= j < before.len() && #[trigger] before[j].0 == k;
                    let j2 = choose|j: int|
                        0 <= j < self.entries().len() && #[trigger] self.entries()[j].0 == k;
                    assert(self.entries()[j].0 == k);
                    assert(j == j2) by {
                        if j != j2 {
                            if j < j2 {
                                assert(self.entries()[j].0 != self.entries()[j2].0);
                            } else {
                                assert(self.entries()[j2].0 != self.entries()[j].0);
                            }
                        }
                    };
                };
                assert(self.contains(n));
                let ghost j = choose|j: int|
                    0 <= j < self.entries().len() && #[trigger] self.entries()[j].0 == n;
                assert(j == last) by {
                    if j != last {
                        assert(!old(self).contains(n));
                        assert(before[j].0 == n);
                    }
                };
            },
        }
    }

    /// The path bound to `name`.
    pub fn lookup(&self, name: &String) -> (r: Option<String>)
        requires
            self.wf(),
        ensures
            r is None <==> !self.contains(name@),
            r matches Some(p) ==> p@ == self.path_of(name@),
    {
        match self.find(name) {
            Some(i) => Some(self.entries[i].1.clone()),
            None => None,
        }
    }

    /// The executable bound to the appkey of `cmdline`, and the arguments
    /// that follow the appkey, verbatim. `None` where the appkey is not bound.
    pub fn resolve_parts(&self, cmdline: &str) -> (r: Option<(String, String)>)
        requires
            self.wf(),
        ensures
            r is None <==> !self.contains(appkey_of(cmdline@)),
            r matches Some(p) ==> p.0@ == self.path_of(appkey_of(cmdline@)) && p.1@
                == arguments_of(cmdline@),
    {
        let (name, args) = split_cmdline(cmdline);
        match self.lookup(&name) {
            None => None,
            Some(path) => Some((path, args)),
        }
    }

    /// The command line to run for `cmdline`: its appkey replaced by the
    /// bound path, the arguments kept verbatim. `None` where the appkey is not
    /// bound.
    pub fn resolve(&self, cmdline: &str) -> (r: Option<String>)
        requires
            self.wf(),
        ensures
            r is None <==> self.resolve_spec(cmdline@) is None,
            r matches Some(x) ==> self.resolve_spec(cmdline@) == Some(x@),
    {
        match self.resolve_parts(cmdline) {
            None => None,
            Some((path, args)) => Some(join_command(path, &args)),
        }
    }
}

/// Splits a command line at its first blank: the appkey before it, the
/// arguments after it, verbatim.
pub fn split_cmdline(cmdline: &str) -> (r: (String, String))
    ensures
        r.0@ == appkey_of(cmdline@),
        r.1@ == arguments_of(cmdline@),
{
    let n = cmdline.unicode_len();
    let mut i: usize = 0;
    while i < n && !blank(cmdline.get_char(i))
        invariant
            n == cmdline@.len(),
            i <= n,
            forall|j: int| 0 <= j < i ==> !is_blank(#[trigger] cmdline@[j]),
        decreases n - i,
    {
        i = i + 1;
    }
    proof {
        lemma_token_end(cmdline@, i as int);
    }
    let name = String::from_str(cmdline.substring_char(0, i));
    assert(name@ =~= appkey_of(cmdline@));
    if i == n {
        let args = String::new();
        assert(args@ =~= arguments_of(cmdline@));
        (name, args)
    } else {
        let args = String::from_str(cmdline.substring_char(i + 1, n));
        assert(args@ =~= arguments_of(cmdline@));
        (name, args)
    }
}

/// An executable's path followed by its arguments, with one blank between
/// them where there are any.
pub fn join_command(path: String, args: &String) -> (r: String)
    ensures
        r@ == expand(path@, args@),
{
    if args.unicode_len() == 0 {
        path
    } else {
        let sep = " ";
        proof {
            reveal_strlit(" ");
        }
        let r = path.concat(sep).concat(args.as_str());
        assert(r@ =~= expand(path@, args@));
        r
    }
}

} // verus!
