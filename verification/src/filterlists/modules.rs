//! Following the scriptlet modules' import graph.
//!
//! The entry lists the scriptlets but not the shared helpers they depend on, and those live
//! both beside them and above them: the graph is followed transitively, by relative path.
use super::MAX_MODULES;
use crate::text::{begins, chars_of, ends, joined, same};
use vstd::prelude::*;

verus! {

/// Texts as spec values.
pub open spec fn texts_of(texts: Seq<String>) -> Seq<Seq<char>> {
    texts.map_values(|text: String| text@)
}

/// A text's parts, as a character divides it.
pub open spec fn divided(text: Seq<char>, mark: char) -> Seq<Seq<char>>
    decreases text.len(),
{
    if text.len() == 0 {
        seq![Seq::<char>::empty()]
    } else {
        let before = divided(text.drop_last(), mark);
        if text.last() == mark {
            before.push(Seq::empty())
        } else {
            before.drop_last().push(before.last().push(text.last()))
        }
    }
}

/// A path's parts, as its slashes divide it.
pub open spec fn parts_of(path: Seq<char>) -> Seq<Seq<char>> {
    divided(path, '/')
}

/// A path of so many parts, with slashes between them.
pub open spec fn path_of(parts: Seq<Seq<char>>) -> Seq<char>
    decreases parts.len(),
{
    if parts.len() == 0 {
        Seq::empty()
    } else if parts.len() == 1 {
        parts[0]
    } else {
        path_of(parts.drop_last()) + "/"@ + parts.last()
    }
}

/// Where one part of a relative path leads from a directory: nowhere, up, or down.
pub open spec fn stepped(dir: Seq<Seq<char>>, part: Seq<char>) -> Seq<Seq<char>> {
    if part == "."@ || part.len() == 0 {
        dir
    } else if part == ".."@ {
        if dir.len() == 0 {
            dir
        } else {
            dir.drop_last()
        }
    } else {
        dir.push(part)
    }
}

/// Where a relative path leads from a directory.
pub open spec fn walked(dir: Seq<Seq<char>>, parts: Seq<Seq<char>>) -> Seq<Seq<char>>
    decreases parts.len(),
{
    if parts.len() == 0 {
        dir
    } else {
        stepped(walked(dir, parts.drop_last()), parts.last())
    }
}

/// The module that a specifier names from an importing module.
pub open spec fn resolved(importer: Seq<char>, specifier: Seq<char>) -> Seq<char> {
    path_of(walked(parts_of(importer).drop_last(), parts_of(specifier)))
}

/// A text's parts, as a character divides it.
fn split(text: &str, mark: char) -> (parts: Vec<String>)
    ensures
        texts_of(parts@) == divided(text@, mark),
        parts@.len() >= 1,
{
    let chars: Vec<char> = chars_of(text);
    let mut parts: Vec<String> = Vec::new();
    let mut start: usize = 0;
    let mut i: usize = 0;
    proof {
        assert(text@.take(0) =~= Seq::empty());
        assert(texts_of(parts@).push(text@.subrange(0, 0)) =~= seq![Seq::<char>::empty()]);
    }
    while i < chars.len()
        invariant
            start <= i <= chars@.len(),
            chars@ == text@,
            texts_of(parts@).push(text@.subrange(start as int, i as int)) == divided(
                text@.take(i as int),
                mark,
            ),
        decreases chars@.len() - i,
    {
        let ghost held = texts_of(parts@);
        let ghost word = text@.subrange(start as int, i as int);
        proof {
            assert(text@.take(i + 1).drop_last() =~= text@.take(i as int));
            assert(text@.take(i + 1).last() == text@[i as int]);
            assert(held.push(word).drop_last() =~= held);
        }
        if chars[i] == mark {
            let part = String::from_str(text.substring_char(start, i));
            parts.push(part);
            start = i + 1;
            proof {
                assert(texts_of(parts@) =~= held.push(word));
                assert(text@.subrange(i + 1, i + 1) =~= Seq::<char>::empty());
            }
        } else {
            proof {
                assert(text@.subrange(start as int, i + 1) =~= word.push(text@[i as int]));
            }
        }
        i += 1;
    }
    let ghost held = texts_of(parts@);
    let part = String::from_str(text.substring_char(start, i));
    parts.push(part);
    proof {
        assert(text@.take(i as int) =~= text@);
        assert(texts_of(parts@) =~= held.push(part@));
    }
    parts
}

/// A path of so many parts.
fn join(parts: &Vec<String>) -> (path: String)
    ensures
        path@ == path_of(texts_of(parts@)),
{
    let ghost all = texts_of(parts@);
    let mut path: String = String::new();
    let mut i: usize = 0;
    proof {
        assert(all.take(0) =~= Seq::empty());
    }
    while i < parts.len()
        invariant
            i <= parts@.len(),
            all == texts_of(parts@),
            path@ == path_of(all.take(i as int)),
        decreases parts@.len() - i,
    {
        proof {
            assert(all.take(i + 1).drop_last() =~= all.take(i as int));
            assert(all.take(i + 1).last() == parts@[i as int]@);
        }
        if i == 0 {
            path = parts[i].clone();
        } else {
            path.append("/");
            path.append(parts[i].as_str());
        }
        i += 1;
    }
    proof {
        assert(all.take(i as int) =~= all);
    }
    path
}

/// Resolve `./x.js` or `../x.js` against the importing module's path.
///
/// Plain text work: these are URL paths with forward slashes on every platform.
pub fn resolve_relative(importer: &str, specifier: &str) -> (module: String)
    ensures
        module@ == resolved(importer@, specifier@),
{
    let mut segments: Vec<String> = split(importer, '/');
    let ghost importing = texts_of(segments@);
    let _ = segments.pop();
    proof {
        assert(texts_of(segments@) =~= importing.drop_last());
    }
    let ghost dir = texts_of(segments@);
    let parts: Vec<String> = split(specifier, '/');
    let ghost way = texts_of(parts@);
    let mut i: usize = 0;
    proof {
        assert(way.take(0) =~= Seq::empty());
    }
    while i < parts.len()
        invariant
            i <= parts@.len(),
            way == texts_of(parts@),
            texts_of(segments@) == walked(dir, way.take(i as int)),
        decreases parts@.len() - i,
    {
        let ghost here = texts_of(segments@);
        proof {
            assert(way.take(i + 1).drop_last() =~= way.take(i as int));
            assert(way.take(i + 1).last() == parts@[i as int]@);
        }
        let part: &str = parts[i].as_str();
        if same(part, ".") || part.is_empty() {
        } else if same(part, "..") {
            let _ = segments.pop();
            proof {
                if here.len() > 0 {
                    assert(texts_of(segments@) =~= here.drop_last());
                } else {
                    assert(texts_of(segments@) =~= here);
                }
            }
        } else {
            segments.push(parts[i].clone());
            proof {
                assert(texts_of(segments@) =~= here.push(part@));
            }
        }
        i += 1;
    }
    proof {
        assert(way.take(i as int) =~= way);
    }
    join(&segments)
}

/// Whether a character is a letter of a word.
pub open spec fn is_letter(c: char) -> bool {
    'a' <= c <= 'z' || 'A' <= c <= 'Z'
}

/// Whether a place in a text is between two letters, as an apostrophe's is.
pub open spec fn in_word(text: Seq<char>, at: int) -> bool {
    0 < at < text.len() - 1 && is_letter(text[at - 1]) && is_letter(text[at + 1])
}

/// Whether there is a quote at a place. One inside a word is none where `words` is set.
pub open spec fn is_quote(text: Seq<char>, at: int, quote: char, words: bool) -> bool {
    text[at] == quote && !(words && in_word(text, at))
}

/// Where the first quote is, from a place on.
pub open spec fn first_from(text: Seq<char>, from: int, quote: char, words: bool) -> Option<int>
    decreases text.len() - from,
{
    if from < 0 || from >= text.len() {
        None
    } else if is_quote(text, from, quote, words) {
        Some(from)
    } else {
        first_from(text, from + 1, quote, words)
    }
}

/// What a text holds between quotes, from a place on: one opens a literal and the next closes
/// it.
pub open spec fn quoted(text: Seq<char>, from: int, quote: char, words: bool) -> Seq<Seq<char>>
    decreases text.len() - from,
{
    match first_from(text, from, quote, words) {
        Some(open) => {
            match first_from(text, open + 1, quote, words) {
                Some(close) => if from <= open < close < text.len() {
                    seq![text.subrange(open + 1, close)] + quoted(text, close + 1, quote, words)
                } else {
                    Seq::empty()
                },
                None => Seq::empty(),
            }
        },
        None => Seq::empty(),
    }
}

/// Whether a literal names a module by relative path.
pub open spec fn is_module(literal: Seq<char>) -> bool {
    &&& ends(literal, ".js"@)
    &&& begins(literal, "./"@) || begins(literal, "../"@)
}

/// The modules among literals.
pub open spec fn modules_among(literals: Seq<Seq<char>>) -> Seq<Seq<char>>
    decreases literals.len(),
{
    if literals.len() == 0 {
        Seq::empty()
    } else if is_module(literals[0]) {
        seq![literals[0]] + modules_among(literals.drop_first())
    } else {
        modules_among(literals.drop_first())
    }
}

/// The modules that a text names: those in single quotes, and then those in double quotes.
pub open spec fn named_in(text: Seq<char>, words: bool) -> Seq<Seq<char>> {
    modules_among(quoted(text, 0, '\'', words)) + modules_among(quoted(text, 0, '"', words))
}

/// The modules that are not among those already found.
pub open spec fn besides(found: Seq<Seq<char>>, modules: Seq<Seq<char>>) -> Seq<Seq<char>>
    decreases modules.len(),
{
    if modules.len() == 0 {
        Seq::empty()
    } else {
        let before = besides(found, modules.drop_last());
        if found.contains(modules.last()) {
            before
        } else {
            before.push(modules.last())
        }
    }
}

/// The modules that lines name, each line by itself and the apostrophes in its words apart,
/// and that are not among those already found.
pub open spec fn hidden(found: Seq<Seq<char>>, lines: Seq<Seq<char>>) -> Seq<Seq<char>>
    decreases lines.len(),
{
    if lines.len() == 0 {
        Seq::empty()
    } else {
        hidden(found, lines.drop_last()) + besides(found, named_in(lines.last(), true))
    }
}

/// The relative modules a source imports: those that its quotes name, taken in pairs, and then
/// those that an apostrophe before them hides from that.
pub open spec fn imports_of(source: Seq<char>) -> Seq<Seq<char>> {
    let found = named_in(source, false);
    found + hidden(found, divided(source, '\n'))
}

fn letter(c: char) -> (yes: bool)
    ensures
        yes == is_letter(c),
{
    ('a' <= c && c <= 'z') || ('A' <= c && c <= 'Z')
}

/// Where the first quote is, from a place on.
fn find(chars: &Vec<char>, from: usize, quote: char, words: bool) -> (at: Option<usize>)
    requires
        from <= chars@.len(),
    ensures
        match at {
            Some(at) => first_from(chars@, from as int, quote, words) == Some(at as int) && from
                <= at < chars@.len(),
            None => first_from(chars@, from as int, quote, words) is None,
        },
{
    let mut i: usize = from;
    while i < chars.len()
        invariant
            from <= i <= chars@.len(),
            first_from(chars@, from as int, quote, words) == first_from(
                chars@,
                i as int,
                quote,
                words,
            ),
        decreases chars@.len() - i,
    {
        let inside = 0 < i && i < chars.len() - 1 && letter(chars[i - 1]) && letter(chars[i + 1]);
        if chars[i] == quote && !(words && inside) {
            return Some(i);
        }
        i += 1;
    }
    None
}

/// Whether a stretch of a text begins and ends as a module's name does.
fn names_module(chars: &Vec<char>, start: usize, end: usize) -> (yes: bool)
    requires
        start <= end <= chars@.len(),
    ensures
        yes == is_module(chars@.subrange(start as int, end as int)),
{
    proof {
        reveal_strlit(".js");
        reveal_strlit("./");
        reveal_strlit("../");
        let literal = chars@.subrange(start as int, end as int);
        let n = literal.len() as int;
        if n >= 3 {
            assert(literal.skip(n - 3) =~= seq![literal[n - 3], literal[n - 2], literal[n - 1]]);
            assert(".js"@ =~= seq!['.', 'j', 's']);
            assert(literal.take(3) =~= seq![literal[0], literal[1], literal[2]]);
            assert("../"@ =~= seq!['.', '.', '/']);
            assert(literal.take(2) =~= seq![literal[0], literal[1]]);
            assert("./"@ =~= seq!['.', '/']);
            assert(ends(literal, ".js"@) <==> literal[n - 3] == '.' && literal[n - 2] == 'j'
                && literal[n - 1] == 's');
            assert(begins(literal, "./"@) <==> literal[0] == '.' && literal[1] == '/');
            assert(begins(literal, "../"@) <==> literal[0] == '.' && literal[1] == '.'
                && literal[2] == '/');
        }
    }
    if end - start < 3 {
        return false;
    }
    let tail = chars[end - 3] == '.' && chars[end - 2] == 'j' && chars[end - 1] == 's';
    let beside = chars[start] == '.' && chars[start + 1] == '/';
    let above = chars[start] == '.' && chars[start + 1] == '.' && chars[start + 2] == '/';
    tail && (beside || above)
}

/// The modules among what a text holds between quotes, behind those already found.
fn collect(text: &str, chars: &Vec<char>, quote: char, words: bool, out: &mut Vec<String>)
    requires
        chars@ == text@,
    ensures
        texts_of(final(out)@) == texts_of(old(out)@) + modules_among(
            quoted(text@, 0, quote, words),
        ),
{
    let ghost before = texts_of(out@);
    let ghost all = modules_among(quoted(text@, 0, quote, words));
    let mut from: usize = 0;
    while from < chars.len()
        invariant
            from <= chars@.len(),
            chars@ == text@,
            before == texts_of(old(out)@),
            all == modules_among(quoted(text@, 0, quote, words)),
            before + all == texts_of(out@) + modules_among(
                quoted(text@, from as int, quote, words),
            ),
        decreases chars@.len() - from,
    {
        let open: usize = match find(chars, from, quote, words) {
            Some(open) => open,
            None => {
                proof {
                    assert(modules_among(quoted(text@, from as int, quote, words))
                        =~= Seq::empty());
                    assert(texts_of(out@) =~= before + all);
                }
                return;
            },
        };
        let close: usize = match find(chars, open + 1, quote, words) {
            Some(close) => close,
            None => {
                proof {
                    assert(modules_among(quoted(text@, from as int, quote, words))
                        =~= Seq::empty());
                    assert(texts_of(out@) =~= before + all);
                }
                return;
            },
        };
        let ghost held = texts_of(out@);
        let ghost literal = text@.subrange(open + 1, close as int);
        let ghost rest = quoted(text@, close + 1, quote, words);
        proof {
            let here = quoted(text@, from as int, quote, words);
            assert(here == seq![literal] + rest);
            assert(here[0] == literal);
            assert(here.drop_first() =~= rest);
        }
        if names_module(chars, open + 1, close) {
            let name = String::from_str(text.substring_char(open + 1, close));
            out.push(name);
            proof {
                assert(texts_of(out@) =~= held.push(literal));
                assert(held + (seq![literal] + modules_among(rest)) =~= held.push(literal)
                    + modules_among(rest));
            }
        }
        from = close + 1;
    }
    proof {
        assert(quoted(text@, from as int, quote, words) =~= Seq::empty());
        assert(texts_of(out@) =~= before + all);
    }
}

/// The modules that a text names.
fn named(text: &str, words: bool) -> (modules: Vec<String>)
    ensures
        texts_of(modules@) == named_in(text@, words),
{
    let chars: Vec<char> = chars_of(text);
    let mut modules: Vec<String> = Vec::new();
    proof {
        assert(texts_of(modules@) =~= Seq::empty());
    }
    collect(text, &chars, '\'', words, &mut modules);
    collect(text, &chars, '"', words, &mut modules);
    proof {
        assert(texts_of(modules@) =~= named_in(text@, words));
    }
    modules
}

/// Whether a text is among the first of several.
fn among(texts: &Vec<String>, many: usize, text: &str) -> (found: bool)
    requires
        many <= texts@.len(),
    ensures
        found == texts_of(texts@).take(many as int).contains(text@),
{
    let ghost all = texts_of(texts@).take(many as int);
    let mut i: usize = 0;
    while i < many
        invariant
            i <= many <= texts@.len(),
            all == texts_of(texts@).take(many as int),
            forall|k: int| 0 <= k < i ==> #[trigger] all[k] != text@,
        decreases many - i,
    {
        if same(texts[i].as_str(), text) {
            proof {
                assert(all[i as int] == text@);
            }
            return true;
        }
        i += 1;
    }
    false
}

/// The relative modules a source imports.
///
/// Scans the whole file rather than lines that begin an import, because an import is often
/// written across several lines. Missing one costs every scriptlet that depends on it, so one
/// that stands behind an apostrophe in a comment is found too.
pub fn imported_modules(source: &str) -> (modules: Vec<String>)
    ensures
        texts_of(modules@) == imports_of(source@),
{
    let mut modules: Vec<String> = named(source, false);
    let many: usize = modules.len();
    let ghost found = texts_of(modules@);
    let lines: Vec<String> = split(source, '\n');
    let ghost all = texts_of(lines@);
    let mut i: usize = 0;
    proof {
        assert(all.take(0) =~= Seq::empty());
        assert(texts_of(modules@) =~= found + hidden(found, all.take(0)));
    }
    while i < lines.len()
        invariant
            i <= lines@.len(),
            all == texts_of(lines@),
            many == found.len(),
            texts_of(modules@) == found + hidden(found, all.take(i as int)),
        decreases lines@.len() - i,
    {
        let on_line: Vec<String> = named(lines[i].as_str(), true);
        let ghost there = texts_of(on_line@);
        let ghost held = hidden(found, all.take(i as int));
        let mut k: usize = 0;
        proof {
            assert(there.take(0) =~= Seq::empty());
            assert(held + besides(found, there.take(0)) =~= held);
        }
        while k < on_line.len()
            invariant
                k <= on_line@.len(),
                there == texts_of(on_line@),
                many == found.len(),
                texts_of(modules@) == found + (held + besides(found, there.take(k as int))),
            decreases on_line@.len() - k,
        {
            let ghost so_far = texts_of(modules@);
            proof {
                assert(so_far.take(many as int) =~= found);
                assert(modules@.len() == so_far.len());
                assert(there.take(k + 1).drop_last() =~= there.take(k as int));
                assert(there.take(k + 1).last() == on_line@[k as int]@);
            }
            if !among(&modules, many, on_line[k].as_str()) {
                modules.push(on_line[k].clone());
                proof {
                    assert(texts_of(modules@) =~= so_far.push(on_line@[k as int]@));
                    assert(texts_of(modules@) =~= found + (held + besides(
                        found,
                        there.take(k + 1),
                    )));
                }
            }
            k += 1;
        }
        i += 1;
        proof {
            assert(there.take(k as int) =~= there);
            assert(all.take(i as int).drop_last() =~= all.take(i - 1));
            assert(all.take(i as int).last() == lines@[i - 1]@);
        }
    }
    proof {
        assert(all.take(i as int) =~= all);
    }
    modules
}

/// What a crawl over the import graph holds.
#[verifier::ext_equal]
pub struct CrawlState {
    /// The modules still to look at; the last is next.
    pub pending: Seq<Seq<char>>,
    /// The modules that have been looked at.
    pub seen: Seq<Seq<char>>,
    /// The modules that were fetched, with their sources.
    pub modules: Seq<(Seq<char>, Seq<char>)>,
}

impl CrawlState {
    /// The crawl up to the next module to fetch, and that module. One that has been looked at
    /// is passed over, and so is every other once there are as many as are followed.
    pub open spec fn advances(self) -> (CrawlState, Option<Seq<char>>)
        decreases self.pending.len(),
    {
        if self.pending.len() == 0 {
            (self, None)
        } else {
            let name = self.pending.last();
            let rest = CrawlState { pending: self.pending.drop_last(), ..self };
            if self.seen.contains(name) {
                rest.advances()
            } else {
                let noted = CrawlState { seen: self.seen.push(name), ..rest };
                if self.modules.len() >= MAX_MODULES {
                    noted.advances()
                } else {
                    (noted, Some(name))
                }
            }
        }
    }

    /// The crawl with a module fetched: what it imports is still to look at, but for what has
    /// been looked at already.
    pub open spec fn fetches(self, name: Seq<char>, source: Seq<char>) -> CrawlState {
        CrawlState {
            pending: self.pending + unseen(self.seen, name, imports_of(source)),
            modules: self.modules.push((name, source)),
            ..self
        }
    }
}

/// The modules that imports name and that have not been looked at.
pub open spec fn unseen(seen: Seq<Seq<char>>, name: Seq<char>, imports: Seq<Seq<char>>) -> Seq<
    Seq<char>,
>
    decreases imports.len(),
{
    if imports.len() == 0 {
        Seq::empty()
    } else {
        let before = unseen(seen, name, imports.drop_last());
        let module = resolved(name, imports.last());
        if seen.contains(module) {
            before
        } else {
            before.push(module)
        }
    }
}

/// A module and its source.
#[derive(Debug, Clone)]
pub struct Module {
    /// Its path.
    pub name: String,
    /// Its text.
    pub source: String,
}

/// A crawl over the import graph.
pub struct Crawl {
    pending: Vec<String>,
    seen: Vec<String>,
    modules: Vec<Module>,
}

impl View for Crawl {
    type V = CrawlState;

    closed spec fn view(&self) -> CrawlState {
        CrawlState {
            pending: texts_of(self.pending@),
            seen: texts_of(self.seen@),
            modules: self.modules@.map_values(|module: Module| (module.name@, module.source@)),
        }
    }
}

impl Crawl {
    /// A crawl from an entry module.
    pub fn new(entry: &str) -> (crawl: Crawl)
        ensures
            crawl@ == (CrawlState {
                pending: seq![entry@],
                seen: Seq::empty(),
                modules: Seq::empty(),
            }),
    {
        let mut pending: Vec<String> = Vec::new();
        pending.push(String::from_str(entry));
        let crawl = Crawl { pending, seen: Vec::new(), modules: Vec::new() };
        proof {
            assert(crawl@.pending =~= seq![entry@]);
            assert(crawl@.seen =~= Seq::empty());
            assert(crawl@.modules =~= Seq::empty());
        }
        crawl
    }

    /// Whether a module has been looked at.
    fn has_seen(&self, name: &str) -> (seen: bool)
        ensures
            seen == self@.seen.contains(name@),
    {
        let ghost all = self@.seen;
        let mut i: usize = 0;
        while i < self.seen.len()
            invariant
                i <= self.seen@.len(),
                all == texts_of(self.seen@),
                all == self@.seen,
                forall|k: int| 0 <= k < i ==> #[trigger] all[k] != name@,
            decreases self.seen@.len() - i,
        {
            if same(self.seen[i].as_str(), name) {
                proof {
                    assert(all[i as int] == name@);
                }
                return true;
            }
            i += 1;
        }
        false
    }

    /// The next module to fetch, if there is one.
    pub fn next(&mut self) -> (name: Option<String>)
        ensures
            ({
                let (after, next) = old(self)@.advances();
                &&& final(self)@ == after
                &&& match name {
                    Some(name) => next == Some(name@),
                    None => next is None,
                }
            }),
    {
        let ghost before = self@;
        while self.pending.len() > 0
            invariant
                before == old(self)@,
                before.advances() == self@.advances(),
            decreases self.pending@.len(),
        {
            let ghost here = self@;
            let name = match self.pending.pop() {
                Some(name) => name,
                None => {
                    return None;
                },
            };
            proof {
                assert(here.pending.last() == name@);
                assert(self@.pending =~= here.pending.drop_last());
            }
            if !self.has_seen(name.as_str()) {
                self.seen.push(name.clone());
                proof {
                    assert(self@.seen =~= here.seen.push(name@));
                }
                if self.modules.len() < MAX_MODULES {
                    return Some(name);
                }
            }
        }
        None
    }

    /// A module's source has been fetched.
    pub fn fetched(&mut self, name: &str, source: &str)
        ensures
            final(self)@ == old(self)@.fetches(name@, source@),
    {
        let ghost before = self@;
        let imports: Vec<String> = imported_modules(source);
        let ghost all = texts_of(imports@);
        let mut i: usize = 0;
        proof {
            assert(all.take(0) =~= Seq::empty());
            assert(before.pending + unseen(before.seen, name@, all.take(0)) =~= before.pending);
        }
        while i < imports.len()
            invariant
                i <= imports@.len(),
                all == texts_of(imports@),
                self@ == (CrawlState {
                    pending: before.pending + unseen(before.seen, name@, all.take(i as int)),
                    ..before
                }),
            decreases imports@.len() - i,
        {
            let ghost held = self@.pending;
            proof {
                assert(all.take(i + 1).drop_last() =~= all.take(i as int));
                assert(all.take(i + 1).last() == imports@[i as int]@);
            }
            let module = resolve_relative(name, imports[i].as_str());
            if !self.has_seen(module.as_str()) {
                self.pending.push(module);
                proof {
                    assert(self@.pending =~= held.push(module@));
                    assert(self@.pending =~= before.pending + unseen(
                        before.seen,
                        name@,
                        all.take(i + 1),
                    ));
                }
            }
            i += 1;
        }
        proof {
            assert(all.take(i as int) =~= all);
        }
        let ghost held = self@.modules;
        self.modules.push(
            Module { name: String::from_str(name), source: String::from_str(source) },
        );
        proof {
            assert(self@.modules =~= held.push((name@, source@)));
        }
    }

    /// How many modules have been fetched.
    pub fn count(&self) -> (many: usize)
        ensures
            many == self@.modules.len(),
    {
        self.modules.len()
    }

    /// What has been fetched.
    pub fn into_modules(self) -> (modules: Vec<Module>)
        ensures
            modules@.map_values(|module: Module| (module.name@, module.source@)) == self@.modules,
    {
        self.modules
    }
}

/// Where a module is fetched from.
pub fn module_url(base_url: &str, name: &str) -> (url: String)
    ensures
        url@ == base_url@ + name@,
{
    joined(base_url, name)
}

/// **No module is fetched twice.** The next module to fetch has not been looked at before,
/// and has been from then on; nothing that has been looked at is forgotten.
pub proof fn no_module_is_fetched_twice(crawl: CrawlState)
    ensures
        ({
            let (after, next) = crawl.advances();
            &&& next matches Some(name) ==> !crawl.seen.contains(name) && after.seen.contains(name)
            &&& forall|name: Seq<char>| #[trigger]
                crawl.seen.contains(name) ==> after.seen.contains(name)
            &&& after.modules == crawl.modules
        }),
    decreases crawl.pending.len(),
{
    if crawl.pending.len() > 0 {
        let name = crawl.pending.last();
        let rest = CrawlState { pending: crawl.pending.drop_last(), ..crawl };
        if crawl.seen.contains(name) {
            no_module_is_fetched_twice(rest);
        } else {
            let noted = CrawlState { seen: crawl.seen.push(name), ..rest };
            assert forall|other: Seq<char>| #[trigger]
                crawl.seen.contains(other) implies noted.seen.contains(other) by {
                let at = choose|at: int| 0 <= at < crawl.seen.len() && crawl.seen[at] == other;
                assert(noted.seen[at] == other);
            }
            assert(noted.seen[crawl.seen.len() as int] == name);
            no_module_is_fetched_twice(noted);
        }
    }
}

/// **The crawl is bounded.** Once as many modules are fetched as are followed, there is no
/// next one, whatever the graph says.
pub proof fn the_crawl_is_bounded(crawl: CrawlState)
    requires
        crawl.modules.len() >= MAX_MODULES,
    ensures
        crawl.advances().1 is None,
        crawl.advances().0.pending.len() == 0,
    decreases crawl.pending.len(),
{
    if crawl.pending.len() > 0 {
        let name = crawl.pending.last();
        let rest = CrawlState { pending: crawl.pending.drop_last(), ..crawl };
        the_crawl_is_bounded(rest);
        the_crawl_is_bounded(CrawlState { seen: crawl.seen.push(name), ..rest });
    }
}

/// **What is paired is found as it is paired.** The modules that a source's quotes name, taken
/// in pairs, come first among its imports, in their order; and no other is one of them.
pub proof fn what_is_paired_is_found(source: Seq<char>)
    ensures
        ({
            let found = named_in(source, false);
            let imports = imports_of(source);
            &&& found.len() <= imports.len()
            &&& imports.take(found.len() as int) == found
            &&& forall|i: int|
                found.len() <= i < imports.len() ==> !found.contains(#[trigger] imports[i])
        }),
{
    let found = named_in(source, false);
    let lines = divided(source, '\n');
    assert(imports_of(source).take(found.len() as int) =~= found);
    what_is_hidden_is_new(found, lines);
    assert forall|i: int| found.len() <= i < imports_of(source).len() implies !found.contains(
        #[trigger] imports_of(source)[i],
    ) by {
        assert(imports_of(source)[i] == hidden(found, lines)[i - found.len()]);
    }
}

proof fn what_is_beside_is_new(found: Seq<Seq<char>>, modules: Seq<Seq<char>>)
    ensures
        forall|i: int|
            0 <= i < besides(found, modules).len() ==> !found.contains(
                #[trigger] besides(found, modules)[i],
            ),
    decreases modules.len(),
{
    if modules.len() > 0 {
        what_is_beside_is_new(found, modules.drop_last());
        let before = besides(found, modules.drop_last());
        assert forall|i: int| 0 <= i < besides(found, modules).len() implies !found.contains(
            #[trigger] besides(found, modules)[i],
        ) by {
            if i < before.len() {
                assert(besides(found, modules)[i] == before[i]);
            }
        }
    }
}

proof fn what_is_hidden_is_new(found: Seq<Seq<char>>, lines: Seq<Seq<char>>)
    ensures
        forall|i: int|
            0 <= i < hidden(found, lines).len() ==> !found.contains(
                #[trigger] hidden(found, lines)[i],
            ),
    decreases lines.len(),
{
    if lines.len() > 0 {
        let before = hidden(found, lines.drop_last());
        let more = besides(found, named_in(lines.last(), true));
        what_is_hidden_is_new(found, lines.drop_last());
        what_is_beside_is_new(found, named_in(lines.last(), true));
        assert forall|i: int| 0 <= i < hidden(found, lines).len() implies !found.contains(
            #[trigger] hidden(found, lines)[i],
        ) by {
            if i < before.len() {
                assert(hidden(found, lines)[i] == before[i]);
            } else {
                assert(hidden(found, lines)[i] == more[i - before.len()]);
            }
        }
    }
}

/// How many quotes a text holds from one place up to another, the apostrophes in its words
/// apart.
pub open spec fn quotes_between(text: Seq<char>, from: int, to: int, quote: char) -> nat
    decreases to - from,
{
    if from >= to {
        0
    } else {
        quotes_between(text, from + 1, to, quote) + if is_quote(text, from, quote, true) {
            1nat
        } else {
            0nat
        }
    }
}

/// How many quotes a text holds from one place up to another; one inside a word is none where
/// `words` is set.
pub open spec fn quotes_counted(
    text: Seq<char>,
    from: int,
    to: int,
    quote: char,
    words: bool,
) -> nat
    decreases to - from,
{
    if from >= to {
        0
    } else {
        quotes_counted(text, from + 1, to, quote, words) + if is_quote(text, from, quote, words) {
            1nat
        } else {
            0nat
        }
    }
}

/// **No import is missed.** Whatever the lines before it hold, a literal of either kind of
/// quote that names a module by relative path is among a source's imports, where the quotes
/// before it on its own line pair up, the apostrophes in words apart.
pub proof fn no_import_is_missed(source: Seq<char>, at: int, open: int, close: int, quote: char)
    requires
        quote == '\'' || quote == '"',
        0 <= at < divided(source, '\n').len(),
        ({
            let line = divided(source, '\n')[at];
            &&& 0 <= open < close < line.len()
            &&& is_quote(line, open, quote, true)
            &&& is_quote(line, close, quote, true)
            &&& forall|i: int| open < i < close ==> !is_quote(line, i, quote, true)
            &&& quotes_between(line, 0, open, quote) % 2 == 0
            &&& is_module(line.subrange(open + 1, close))
        }),
    ensures
        imports_of(source).contains(divided(source, '\n')[at].subrange(open + 1, close)),
{
    let lines = divided(source, '\n');
    let line = lines[at];
    let literal = line.subrange(open + 1, close);
    let found = named_in(source, false);
    words_are_minded(line, 0, open, quote);
    a_literal_is_found(line, 0, open, close, quote, true);
    let literals = quoted(line, 0, quote, true);
    let k = choose|k: int| 0 <= k < literals.len() && literals[k] == literal;
    a_module_is_kept(literals, k);
    let single = modules_among(quoted(line, 0, '\'', true));
    let double = modules_among(quoted(line, 0, '"', true));
    let kept = modules_among(literals);
    let j = choose|j: int| 0 <= j < kept.len() && kept[j] == literal;
    if quote == '\'' {
        assert(named_in(line, true)[j] == literal);
    } else {
        assert(named_in(line, true)[single.len() + j] == literal);
    }
    if found.contains(literal) {
        let i = choose|i: int| 0 <= i < found.len() && found[i] == literal;
        assert(imports_of(source)[i] == literal);
    } else {
        a_hidden_module_is_found(found, lines, at, literal);
        let more = hidden(found, lines);
        let i = choose|i: int| 0 <= i < more.len() && more[i] == literal;
        assert(imports_of(source)[found.len() + i] == literal);
    }
}

/// Counting with an eye to words is counting the apostrophes in words apart.
proof fn words_are_minded(text: Seq<char>, from: int, to: int, quote: char)
    ensures
        quotes_counted(text, from, to, quote, true) == quotes_between(text, from, to, quote),
    decreases to - from,
{
    if from < to {
        words_are_minded(text, from + 1, to, quote);
    }
}

proof fn a_hidden_module_is_found(
    found: Seq<Seq<char>>,
    lines: Seq<Seq<char>>,
    at: int,
    module: Seq<char>,
)
    requires
        0 <= at < lines.len(),
        named_in(lines[at], true).contains(module),
        !found.contains(module),
    ensures
        hidden(found, lines).contains(module),
    decreases lines.len(),
{
    let before = hidden(found, lines.drop_last());
    let more = besides(found, named_in(lines.last(), true));
    if at == lines.len() - 1 {
        a_new_module_is_beside(found, named_in(lines.last(), true), module);
        let i = choose|i: int| 0 <= i < more.len() && more[i] == module;
        assert(hidden(found, lines)[before.len() + i] == module);
    } else {
        a_hidden_module_is_found(found, lines.drop_last(), at, module);
        let i = choose|i: int| 0 <= i < before.len() && before[i] == module;
        assert(hidden(found, lines)[i] == module);
    }
}

proof fn a_new_module_is_beside(
    found: Seq<Seq<char>>,
    modules: Seq<Seq<char>>,
    module: Seq<char>,
)
    requires
        modules.contains(module),
        !found.contains(module),
    ensures
        besides(found, modules).contains(module),
    decreases modules.len(),
{
    let at = choose|at: int| 0 <= at < modules.len() && modules[at] == module;
    let before = besides(found, modules.drop_last());
    if at == modules.len() - 1 {
        assert(besides(found, modules).last() == module);
    } else {
        assert(modules.drop_last()[at] == module);
        a_new_module_is_beside(found, modules.drop_last(), module);
        let i = choose|i: int| 0 <= i < before.len() && before[i] == module;
        assert(besides(found, modules)[i] == module);
    }
}

/// A quote is found where nothing before it is one.
proof fn a_quote_is_found(text: Seq<char>, from: int, at: int, quote: char, words: bool)
    requires
        0 <= from <= at < text.len(),
        is_quote(text, at, quote, words),
        forall|i: int| from <= i < at ==> !is_quote(text, i, quote, words),
    ensures
        first_from(text, from, quote, words) == Some(at),
    decreases at - from,
{
    if from < at {
        a_quote_is_found(text, from + 1, at, quote, words);
    }
}

/// Before a quote, the first is no later, and those from it on are counted after it.
proof fn the_first_is_counted(text: Seq<char>, from: int, at: int, quote: char, words: bool)
    requires
        0 <= from <= at < text.len(),
        is_quote(text, at, quote, words),
    ensures
        first_from(text, from, quote, words) matches Some(first) && from <= first <= at && (first
            < at ==> quotes_counted(text, from, at, quote, words) == 1 + quotes_counted(
            text,
            first + 1,
            at,
            quote,
            words,
        )) && (first == at ==> quotes_counted(text, from, at, quote, words) == 0),
    decreases at - from,
{
    if !is_quote(text, from, quote, words) {
        the_first_is_counted(text, from + 1, at, quote, words);
    }
}

proof fn a_literal_is_found(
    text: Seq<char>,
    from: int,
    open: int,
    close: int,
    quote: char,
    words: bool,
)
    requires
        0 <= from <= open < close < text.len(),
        is_quote(text, open, quote, words),
        is_quote(text, close, quote, words),
        forall|i: int| open < i < close ==> !is_quote(text, i, quote, words),
        quotes_counted(text, from, open, quote, words) % 2 == 0,
    ensures
        quoted(text, from, quote, words).contains(text.subrange(open + 1, close)),
    decreases open - from,
{
    let literal = text.subrange(open + 1, close);
    the_first_is_counted(text, from, open, quote, words);
    let first = first_from(text, from, quote, words)->0;
    if first == open {
        a_quote_is_found(text, open + 1, close, quote, words);
        assert(quoted(text, from, quote, words)[0] == literal);
    } else {
        the_first_is_counted(text, first + 1, open, quote, words);
        let second = first_from(text, first + 1, quote, words)->0;
        assert(second < open);
        a_literal_is_found(text, second + 1, open, close, quote, words);
        let rest = quoted(text, second + 1, quote, words);
        let at = choose|at: int| 0 <= at < rest.len() && rest[at] == literal;
        assert(quoted(text, from, quote, words)[at + 1] == literal);
    }
}

proof fn a_module_is_kept(literals: Seq<Seq<char>>, at: int)
    requires
        0 <= at < literals.len(),
        is_module(literals[at]),
    ensures
        modules_among(literals).contains(literals[at]),
    decreases literals.len(),
{
    let literal = literals[at];
    if at == 0 {
        assert(modules_among(literals)[0] == literal);
    } else {
        let rest = literals.drop_first();
        assert(rest[at - 1] == literal);
        a_module_is_kept(rest, at - 1);
        let found = modules_among(rest);
        let k = choose|k: int| 0 <= k < found.len() && found[k] == literal;
        if is_module(literals[0]) {
            assert(modules_among(literals)[k + 1] == literal);
        }
    }
}

/// Whether a module has been fetched.
pub open spec fn is_fetched(crawl: CrawlState, name: Seq<char>) -> bool {
    exists|k: int| 0 <= k < crawl.modules.len() && (#[trigger] crawl.modules[k]).0 == name
}

/// The crawl from an entry module over a graph, after so many rounds of asking for the next
/// module and fetching it, up to the one that has no next.
pub open spec fn crawled(
    graph: spec_fn(Seq<char>) -> Seq<char>,
    entry: Seq<char>,
    rounds: nat,
) -> CrawlState
    decreases rounds,
{
    if rounds == 0 {
        CrawlState { pending: seq![entry], seen: Seq::empty(), modules: Seq::empty() }
    } else {
        let (after, next) = crawled(graph, entry, (rounds - 1) as nat).advances();
        match next {
            Some(name) => after.fetches(name, graph(name)),
            None => after,
        }
    }
}

/// **A finished crawl has everything it needs.** One that has no next module, with fewer
/// fetched than are followed, has fetched the entry and every module that a fetched one
/// imports.
pub proof fn a_finished_crawl_is_closed(
    graph: spec_fn(Seq<char>) -> Seq<char>,
    entry: Seq<char>,
    rounds: nat,
)
    requires
        crawled(graph, entry, rounds).advances().1 is None,
        crawled(graph, entry, rounds).modules.len() < MAX_MODULES,
    ensures
        ({
            let crawl = crawled(graph, entry, rounds);
            &&& is_fetched(crawl, entry)
            &&& forall|k: int, i: int|
                #![trigger imports_of(crawl.modules[k].1)[i]]
                0 <= k < crawl.modules.len() && 0 <= i < imports_of(crawl.modules[k].1).len()
                    ==> is_fetched(
                    crawl,
                    resolved(crawl.modules[k].0, imports_of(crawl.modules[k].1)[i]),
                )
        }),
{
    let crawl = crawled(graph, entry, rounds);
    a_crawl_forgets_nothing(graph, entry, rounds);
    advancing_forgets_nothing(crawl);
    assert(is_fetched(crawl, entry));
}

/// Whether a module has been looked at or is still to be.
spec fn is_known(crawl: CrawlState, name: Seq<char>) -> bool {
    crawl.seen.contains(name) || crawl.pending.contains(name)
}

/// What a crawl below the limit keeps to, between rounds.
spec fn keeps_up(crawl: CrawlState, entry: Seq<char>) -> bool {
    &&& is_known(crawl, entry)
    &&& forall|name: Seq<char>| #[trigger] crawl.seen.contains(name) ==> is_fetched(crawl, name)
    &&& forall|k: int, i: int|
        #![trigger imports_of(crawl.modules[k].1)[i]]
        0 <= k < crawl.modules.len() && 0 <= i < imports_of(crawl.modules[k].1).len() ==> is_known(
            crawl,
            resolved(crawl.modules[k].0, imports_of(crawl.modules[k].1)[i]),
        )
}

proof fn advancing_forgets_nothing(crawl: CrawlState)
    requires
        crawl.modules.len() < MAX_MODULES,
    ensures
        ({
            let (after, next) = crawl.advances();
            &&& after.modules == crawl.modules
            &&& after.seen == match next {
                Some(name) => crawl.seen.push(name),
                None => crawl.seen,
            }
            &&& next is None ==> after.pending.len() == 0
            &&& forall|name: Seq<char>| #[trigger]
                is_known(crawl, name) ==> is_known(after, name)
            &&& next is None ==> forall|name: Seq<char>| #[trigger]
                is_known(crawl, name) ==> crawl.seen.contains(name)
        }),
    decreases crawl.pending.len(),
{
    if crawl.pending.len() > 0 {
        let name = crawl.pending.last();
        let rest = CrawlState { pending: crawl.pending.drop_last(), ..crawl };
        assert forall|other: Seq<char>| #[trigger] is_known(crawl, other) && other != name implies
            is_known(rest, other) by {
            if crawl.pending.contains(other) {
                let at = choose|at: int|
                    0 <= at < crawl.pending.len() && crawl.pending[at] == other;
                assert(rest.pending[at] == other);
            }
        }
        if crawl.seen.contains(name) {
            advancing_forgets_nothing(rest);
            assert forall|other: Seq<char>| #[trigger] is_known(crawl, other) implies is_known(
                rest,
                other,
            ) by {}
        } else {
            let noted = CrawlState { seen: crawl.seen.push(name), ..rest };
            assert(noted.seen[crawl.seen.len() as int] == name);
            assert forall|other: Seq<char>| #[trigger] is_known(crawl, other) implies is_known(
                noted,
                other,
            ) by {
                if other != name {
                    assert(is_known(rest, other));
                    if rest.seen.contains(other) {
                        let at = choose|at: int|
                            0 <= at < rest.seen.len() && rest.seen[at] == other;
                        assert(noted.seen[at] == other);
                    }
                }
            }
        }
    }
}

/// An import of a module just fetched has been looked at, or is now to be.
proof fn an_import_is_noted(
    seen: Seq<Seq<char>>,
    name: Seq<char>,
    imports: Seq<Seq<char>>,
    i: int,
)
    requires
        0 <= i < imports.len(),
    ensures
        seen.contains(resolved(name, imports[i])) || unseen(seen, name, imports).contains(
            resolved(name, imports[i]),
        ),
    decreases imports.len(),
{
    let module = resolved(name, imports[i]);
    let fewer = imports.drop_last();
    let before = unseen(seen, name, fewer);
    if i == imports.len() - 1 {
        if !seen.contains(module) {
            assert(unseen(seen, name, imports)[before.len() as int] == module);
        }
    } else {
        an_import_is_noted(seen, name, fewer, i);
        if before.contains(module) {
            let at = choose|at: int| 0 <= at < before.len() && before[at] == module;
            assert(unseen(seen, name, imports)[at] == module);
        }
    }
}

proof fn a_crawl_forgets_nothing(
    graph: spec_fn(Seq<char>) -> Seq<char>,
    entry: Seq<char>,
    rounds: nat,
)
    requires
        crawled(graph, entry, rounds).modules.len() < MAX_MODULES,
    ensures
        keeps_up(crawled(graph, entry, rounds), entry),
    decreases rounds,
{
    let crawl = crawled(graph, entry, rounds);
    if rounds == 0 {
        assert(crawl.pending[0] == entry);
    } else {
        let before = crawled(graph, entry, (rounds - 1) as nat);
        no_module_is_fetched_twice(before);
        let (after, next) = before.advances();
        a_crawl_forgets_nothing(graph, entry, (rounds - 1) as nat);
        advancing_forgets_nothing(before);
        match next {
            None => {
                assert(is_known(crawl, entry));
                assert forall|name: Seq<char>| #[trigger]
                    crawl.seen.contains(name) implies is_fetched(crawl, name) by {
                    assert(before.seen.contains(name));
                    assert(is_fetched(before, name));
                }
                assert forall|k: int, i: int|
                    #![trigger imports_of(crawl.modules[k].1)[i]]
                    0 <= k < crawl.modules.len() && 0 <= i < imports_of(
                        crawl.modules[k].1,
                    ).len() implies is_known(
                    crawl,
                    resolved(crawl.modules[k].0, imports_of(crawl.modules[k].1)[i]),
                ) by {
                    assert(is_known(
                        before,
                        resolved(before.modules[k].0, imports_of(before.modules[k].1)[i]),
                    ));
                }
            },
            Some(name) => {
                fetching_keeps_up(before, after, name, graph(name), entry);
            },
        }
    }
}

proof fn fetching_keeps_up(
    before: CrawlState,
    after: CrawlState,
    name: Seq<char>,
    source: Seq<char>,
    entry: Seq<char>,
)
    requires
        keeps_up(before, entry),
        after.modules == before.modules,
        after.seen == before.seen.push(name),
        forall|other: Seq<char>| #[trigger] is_known(before, other) ==> is_known(after, other),
    ensures
        keeps_up(after.fetches(name, source), entry),
{
    let crawl = after.fetches(name, source);
    let many = before.modules.len() as int;
    let more = unseen(after.seen, name, imports_of(source));
    assert forall|other: Seq<char>| #[trigger] is_known(after, other) implies is_known(
        crawl,
        other,
    ) by {
        if after.pending.contains(other) {
            let at = choose|at: int| 0 <= at < after.pending.len() && after.pending[at] == other;
            assert(crawl.pending[at] == other);
        }
    }
    assert(is_known(before, entry));
    assert(is_known(after, entry));
    assert(is_known(crawl, entry));
    assert(crawl.modules[many] == (name, source));
    assert forall|other: Seq<char>| #[trigger] crawl.seen.contains(other) implies is_fetched(
        crawl,
        other,
    ) by {
        if other != name {
            let at = choose|at: int| 0 <= at < crawl.seen.len() && crawl.seen[at] == other;
            assert(before.seen[at] == other);
            assert(before.seen.contains(other));
            assert(is_fetched(before, other));
            let k = choose|k: int|
                0 <= k < before.modules.len() && (#[trigger] before.modules[k]).0 == other;
            assert(crawl.modules[k].0 == other);
        } else {
            assert(crawl.modules[many].0 == name);
        }
    }
    assert forall|k: int, i: int|
        #![trigger imports_of(crawl.modules[k].1)[i]]
        0 <= k < crawl.modules.len() && 0 <= i < imports_of(
            crawl.modules[k].1,
        ).len() implies is_known(
        crawl,
        resolved(crawl.modules[k].0, imports_of(crawl.modules[k].1)[i]),
    ) by {
        if k < many {
            assert(crawl.modules[k] == before.modules[k]);
            let module = resolved(before.modules[k].0, imports_of(before.modules[k].1)[i]);
            assert(is_known(before, module));
            assert(is_known(after, module));
        } else {
            an_import_is_noted(after.seen, name, imports_of(source), i);
            let module = resolved(name, imports_of(source)[i]);
            if more.contains(module) {
                let at = choose|at: int| 0 <= at < more.len() && more[at] == module;
                assert(crawl.pending[after.pending.len() + at] == module);
            }
        }
    }
}

/// **What is paired off is an import.** Wherever in a source it stands, a literal of either kind
/// of quote that names a module by relative path is among the source's imports, where the quotes
/// of its kind before it pair up.
pub proof fn what_is_paired_off_is_an_import(source: Seq<char>, open: int, close: int, quote: char)
    requires
        quote == '\'' || quote == '"',
        0 <= open < close < source.len(),
        source[open] == quote,
        source[close] == quote,
        forall|i: int| open < i < close ==> source[i] != quote,
        quotes_counted(source, 0, open, quote, false) % 2 == 0,
        is_module(source.subrange(open + 1, close)),
    ensures
        imports_of(source).contains(source.subrange(open + 1, close)),
{
    let literal = source.subrange(open + 1, close);
    a_literal_is_found(source, 0, open, close, quote, false);
    let literals = quoted(source, 0, quote, false);
    let k = choose|k: int| 0 <= k < literals.len() && literals[k] == literal;
    a_module_is_kept(literals, k);
    let single = modules_among(quoted(source, 0, '\'', false));
    let kept = modules_among(literals);
    let j = choose|j: int| 0 <= j < kept.len() && kept[j] == literal;
    if quote == '\'' {
        assert(imports_of(source)[j] == literal);
    } else {
        assert(imports_of(source)[single.len() + j] == literal);
    }
}

/// Whether a literal stands in a text between two quotes of a kind.
pub open spec fn stands_in(text: Seq<char>, literal: Seq<char>) -> bool {
    exists|open: int, close: int|
        #![trigger text.subrange(open, close)]
        {
            &&& 0 < open <= close < text.len()
            &&& text[open - 1] == text[close]
            &&& text[close] == '\'' || text[close] == '"'
            &&& literal == text.subrange(open, close)
        }
}

proof fn a_first_is_a_quote(text: Seq<char>, from: int, quote: char, words: bool)
    ensures
        first_from(text, from, quote, words) matches Some(at) ==> from <= at < text.len()
            && text[at] == quote && 0 <= at,
    decreases text.len() - from,
{
    if 0 <= from < text.len() && !is_quote(text, from, quote, words) {
        a_first_is_a_quote(text, from + 1, quote, words);
    }
}

proof fn what_is_quoted_stands(text: Seq<char>, from: int, quote: char, words: bool)
    requires
        quote == '\'' || quote == '"',
    ensures
        forall|k: int|
            0 <= k < quoted(text, from, quote, words).len() ==> stands_in(
                text,
                #[trigger] quoted(text, from, quote, words)[k],
            ),
    decreases text.len() - from,
{
    let all = quoted(text, from, quote, words);
    if let Some(open) = first_from(text, from, quote, words) {
        a_first_is_a_quote(text, from, quote, words);
        if let Some(close) = first_from(text, open + 1, quote, words) {
            a_first_is_a_quote(text, open + 1, quote, words);
            let rest = quoted(text, close + 1, quote, words);
            what_is_quoted_stands(text, close + 1, quote, words);
            assert(stands_in(text, text.subrange(open + 1, close)));
            assert forall|k: int| 0 <= k < all.len() implies stands_in(text, #[trigger] all[k]) by {
                if k > 0 {
                    assert(all[k] == rest[k - 1]);
                }
            }
        }
    }
}

proof fn what_is_kept_is_a_module(literals: Seq<Seq<char>>)
    ensures
        forall|k: int|
            0 <= k < modules_among(literals).len() ==> is_module(
                #[trigger] modules_among(literals)[k],
            ) && literals.contains(modules_among(literals)[k]),
    decreases literals.len(),
{
    if literals.len() > 0 {
        let rest = literals.drop_first();
        let kept = modules_among(rest);
        let all = modules_among(literals);
        what_is_kept_is_a_module(rest);
        assert forall|k: int| 0 <= k < all.len() implies is_module(#[trigger] all[k])
            && literals.contains(all[k]) by {
            let skipped = if is_module(literals[0]) {
                1int
            } else {
                0int
            };
            if k < skipped {
                assert(all[k] == literals[0]);
            } else {
                assert(all[k] == kept[k - skipped]);
                let at = choose|at: int| 0 <= at < rest.len() && rest[at] == kept[k - skipped];
                assert(literals[at + 1] == all[k]);
            }
        }
    }
}

proof fn what_is_named_stands(text: Seq<char>, words: bool)
    ensures
        forall|k: int|
            0 <= k < named_in(text, words).len() ==> is_module(
                #[trigger] named_in(text, words)[k],
            ) && stands_in(text, named_in(text, words)[k]),
{
    let single = quoted(text, 0, '\'', words);
    let double = quoted(text, 0, '"', words);
    what_is_quoted_stands(text, 0, '\'', words);
    what_is_quoted_stands(text, 0, '"', words);
    what_is_kept_is_a_module(single);
    what_is_kept_is_a_module(double);
    let first = modules_among(single);
    let all = named_in(text, words);
    assert forall|k: int| 0 <= k < all.len() implies is_module(#[trigger] all[k]) && stands_in(
        text,
        all[k],
    ) by {
        if k < first.len() {
            assert(all[k] == first[k]);
            let at = choose|at: int| 0 <= at < single.len() && single[at] == first[k];
            assert(stands_in(text, single[at]));
        } else {
            let second = modules_among(double);
            assert(all[k] == second[k - first.len()]);
            let at = choose|at: int| 0 <= at < double.len() && double[at] == second[k - first.len()];
            assert(stands_in(text, double[at]));
        }
    }
}

proof fn what_is_beside_was_there(found: Seq<Seq<char>>, modules: Seq<Seq<char>>)
    ensures
        forall|i: int|
            0 <= i < besides(found, modules).len() ==> modules.contains(
                #[trigger] besides(found, modules)[i],
            ),
    decreases modules.len(),
{
    if modules.len() > 0 {
        let fewer = modules.drop_last();
        let before = besides(found, fewer);
        what_is_beside_was_there(found, fewer);
        assert forall|i: int| 0 <= i < besides(found, modules).len() implies modules.contains(
            #[trigger] besides(found, modules)[i],
        ) by {
            if i < before.len() {
                assert(besides(found, modules)[i] == before[i]);
                let at = choose|at: int| 0 <= at < fewer.len() && fewer[at] == before[i];
                assert(modules[at] == before[i]);
            } else {
                assert(modules[modules.len() - 1] == besides(found, modules)[i]);
            }
        }
    }
}

/// Whether a literal stands in one of several lines.
pub open spec fn stands_on_a_line(lines: Seq<Seq<char>>, literal: Seq<char>) -> bool {
    exists|at: int| 0 <= at < lines.len() && stands_in(#[trigger] lines[at], literal)
}

proof fn what_is_hidden_stands(found: Seq<Seq<char>>, lines: Seq<Seq<char>>)
    ensures
        forall|i: int|
            0 <= i < hidden(found, lines).len() ==> is_module(#[trigger] hidden(found, lines)[i])
                && stands_on_a_line(lines, hidden(found, lines)[i]),
    decreases lines.len(),
{
    if lines.len() > 0 {
        let fewer = lines.drop_last();
        let before = hidden(found, fewer);
        let named = named_in(lines.last(), true);
        let more = besides(found, named);
        let all = hidden(found, lines);
        what_is_hidden_stands(found, fewer);
        what_is_named_stands(lines.last(), true);
        what_is_beside_was_there(found, named);
        assert forall|i: int| 0 <= i < all.len() implies is_module(#[trigger] all[i])
            && stands_on_a_line(lines, all[i]) by {
            if i < before.len() {
                assert(all[i] == before[i]);
                let at = choose|at: int|
                    0 <= at < fewer.len() && stands_in(#[trigger] fewer[at], before[i]);
                assert(stands_in(lines[at], all[i]));
            } else {
                assert(all[i] == more[i - before.len()]);
                let at = choose|at: int| 0 <= at < named.len() && named[at] == all[i];
                assert(stands_in(lines.last(), named[at]));
                assert(stands_in(lines[lines.len() - 1], all[i]));
            }
        }
    }
}

/// **No import is made up.** Every one names a module by relative path, and stands between two
/// quotes of a kind in the source or on one of its lines.
pub proof fn no_import_is_made_up(source: Seq<char>, at: int)
    requires
        0 <= at < imports_of(source).len(),
    ensures
        is_module(imports_of(source)[at]),
        stands_in(source, imports_of(source)[at]) || stands_on_a_line(
            divided(source, '\n'),
            imports_of(source)[at],
        ),
{
    let found = named_in(source, false);
    let lines = divided(source, '\n');
    what_is_named_stands(source, false);
    what_is_hidden_stands(found, lines);
    if at < found.len() {
        assert(imports_of(source)[at] == found[at]);
    } else {
        assert(imports_of(source)[at] == hidden(found, lines)[at - found.len()]);
    }
}

/// **A module is named beside its importer or above it.** Whatever it is called, behind `./` or
/// `../` and before `.js` it is one; without either of the two, or under another ending, it is
/// not.
pub proof fn a_module_is_named_beside_or_above(name: Seq<char>)
    ensures
        is_module("./"@ + name + ".js"@),
        is_module("../"@ + name + ".js"@),
        is_module(name) ==> name.len() >= 4 && name[0] == '.' && (name[1] == '/' || (name[1] == '.'
            && name[2] == '/')) && name.last() == 's',
{
    reveal_strlit("./");
    reveal_strlit("../");
    reveal_strlit(".js");
    let beside = "./"@ + name + ".js"@;
    let above = "../"@ + name + ".js"@;
    assert(beside.take(2) =~= "./"@);
    assert(above.take(3) =~= "../"@);
    assert(beside.skip(beside.len() - 3) =~= ".js"@);
    assert(above.skip(above.len() - 3) =~= ".js"@);
    if is_module(name) {
        assert(name.skip(name.len() - 3)[0] == '.');
        assert(name.skip(name.len() - 3)[2] == 's');
        if begins(name, "./"@) {
            assert(name.take(2)[0] == '.' && name.take(2)[1] == '/');
        } else {
            assert(name.take(3)[0] == '.' && name.take(3)[1] == '.' && name.take(3)[2] == '/');
        }
    }
}

/// A text's parts are those before a mark and the one behind it.
proof fn a_mark_divides(text: Seq<char>, mark: char, word: Seq<char>)
    requires
        !word.contains(mark),
    ensures
        divided(text + seq![mark] + word, mark) == divided(text, mark).push(word),
    decreases word.len(),
{
    let whole = text + seq![mark] + word;
    if word.len() == 0 {
        assert(whole.drop_last() =~= text);
        assert(whole.last() == mark);
        assert(word =~= Seq::empty());
    } else {
        let fewer = word.drop_last();
        assert(!fewer.contains(mark)) by {
            assert forall|i: int| 0 <= i < fewer.len() implies fewer[i] != mark by {
                assert(fewer[i] == word[i]);
            }
        }
        assert(word.last() != mark) by {
            assert(word[word.len() - 1] == word.last());
        }
        a_mark_divides(text, mark, fewer);
        assert(whole.drop_last() =~= text + seq![mark] + fewer);
        assert(whole.last() == word.last());
        assert(divided(text, mark).push(fewer).drop_last() =~= divided(text, mark));
        assert(fewer.push(word.last()) =~= word);
    }
}

/// A text without a mark is one part.
proof fn a_word_is_one_part(word: Seq<char>, mark: char)
    requires
        !word.contains(mark),
    ensures
        divided(word, mark) == seq![word],
    decreases word.len(),
{
    if word.len() == 0 {
        assert(word =~= Seq::empty());
    } else {
        let fewer = word.drop_last();
        assert forall|i: int| 0 <= i < fewer.len() implies fewer[i] != mark by {
            assert(fewer[i] == word[i]);
        }
        assert(word[word.len() - 1] == word.last());
        a_word_is_one_part(fewer, mark);
        assert(fewer.push(word.last()) =~= word);
        assert(divided(word, mark) =~= seq![word]);
    }
}

/// **A path is its parts.** A path put together from parts without slashes is divided into those
/// parts again, and a path's parts put together are that path.
pub proof fn a_path_is_its_parts(parts: Seq<Seq<char>>, path: Seq<char>)
    requires
        parts.len() > 0,
        forall|i: int| 0 <= i < parts.len() ==> !(#[trigger] parts[i]).contains('/'),
    ensures
        parts_of(path_of(parts)) == parts,
        path_of(parts_of(path)) == path,
{
    parts_come_back(parts);
    a_path_comes_back(path);
}

proof fn parts_come_back(parts: Seq<Seq<char>>)
    requires
        parts.len() > 0,
        forall|i: int| 0 <= i < parts.len() ==> !(#[trigger] parts[i]).contains('/'),
    ensures
        parts_of(path_of(parts)) == parts,
    decreases parts.len(),
{
    reveal_strlit("/");
    assert(parts[parts.len() - 1] == parts.last());
    if parts.len() == 1 {
        a_word_is_one_part(parts[0], '/');
        assert(parts =~= seq![parts[0]]);
    } else {
        let fewer = parts.drop_last();
        assert forall|i: int| 0 <= i < fewer.len() implies !(#[trigger] fewer[i]).contains('/') by {
            assert(fewer[i] == parts[i]);
        }
        parts_come_back(fewer);
        assert("/"@ =~= seq!['/']);
        a_mark_divides(path_of(fewer), '/', parts.last());
        assert(fewer.push(parts.last()) =~= parts);
    }
}

proof fn a_path_comes_back(path: Seq<char>)
    ensures
        parts_of(path).len() > 0,
        path_of(parts_of(path)) == path,
    decreases path.len(),
{
    reveal_strlit("/");
    if path.len() == 0 {
        assert(path_of(parts_of(path)) =~= path);
    } else {
        let shorter = path.drop_last();
        let before = parts_of(shorter);
        let parts = parts_of(path);
        a_path_comes_back(shorter);
        assert(shorter.push(path.last()) =~= path);
        if path.last() == '/' {
            assert(parts.drop_last() =~= before);
            assert(path_of(parts) =~= shorter + "/"@);
            assert(shorter + "/"@ =~= path);
        } else {
            assert(parts.drop_last() =~= before.drop_last());
            assert(parts.last() == before.last().push(path.last()));
            if parts.len() == 1 {
                assert(path_of(parts) =~= path);
            } else {
                assert(path_of(parts) =~= path_of(before.drop_last()) + "/"@ + before.last().push(
                    path.last(),
                ));
                assert(path_of(parts) =~= path_of(before).push(path.last()));
            }
        }
    }
}

/// **A specifier is read from where its importer stands.** Behind `./` it names a module in the
/// importer's directory, behind `../` one in the directory above, and above the top there is
/// nothing but the top.
pub proof fn a_specifier_is_read_from_its_importer(
    dir: Seq<Seq<char>>,
    file: Seq<char>,
    name: Seq<char>,
)
    requires
        forall|i: int| 0 <= i < dir.len() ==> !(#[trigger] dir[i]).contains('/'),
        !file.contains('/'),
        !name.contains('/'),
        name.len() > 0,
        name != "."@,
        name != ".."@,
    ensures
        resolved(path_of(dir.push(file)), "./"@ + name) == path_of(dir.push(name)),
        resolved(path_of(dir.push(file)), "../"@ + name) == path_of(
            (if dir.len() > 0 {
                dir.drop_last()
            } else {
                dir
            }).push(name),
        ),
{
    reveal_strlit(".");
    reveal_strlit("..");
    reveal_strlit("/");
    reveal_strlit("./");
    reveal_strlit("../");
    let whole = dir.push(file);
    assert forall|i: int| 0 <= i < whole.len() implies !(#[trigger] whole[i]).contains('/') by {
        if i < dir.len() {
            assert(whole[i] == dir[i]);
        }
    }
    parts_come_back(whole);
    assert(whole.drop_last() =~= dir);
    let here = seq!["."@, name];
    let up = seq![".."@, name];
    assert(!"."@.contains('/')) by {
        assert("."@ =~= seq!['.']);
    }
    assert(!".."@.contains('/')) by {
        assert(".."@ =~= seq!['.', '.']);
    }
    assert(here.drop_last() =~= seq!["."@]);
    assert(up.drop_last() =~= seq![".."@]);
    assert(path_of(here.drop_last()) == "."@);
    assert(path_of(up.drop_last()) == ".."@);
    assert("."@ + "/"@ =~= "./"@);
    assert(".."@ + "/"@ =~= "../"@);
    assert(path_of(here) =~= "./"@ + name);
    assert(path_of(up) =~= "../"@ + name);
    parts_come_back(here);
    parts_come_back(up);
    assert(here.drop_last().drop_last() =~= Seq::empty());
    assert(up.drop_last().drop_last() =~= Seq::empty());
    reveal_with_fuel(walked, 3);
    assert(".."@ != "."@) by {
        assert(".."@.len() != "."@.len());
    }
}

/// **A way is walked part by part.** A way behind another leads on from where that one led.
pub proof fn a_way_is_walked_part_by_part(
    dir: Seq<Seq<char>>,
    first: Seq<Seq<char>>,
    then: Seq<Seq<char>>,
)
    ensures
        walked(dir, first + then) == walked(walked(dir, first), then),
    decreases then.len(),
{
    if then.len() == 0 {
        assert(first + then =~= first);
    } else {
        assert((first + then).drop_last() =~= first + then.drop_last());
        assert((first + then).last() == then.last());
        a_way_is_walked_part_by_part(dir, first, then.drop_last());
    }
}

/// **The newest module is looked at first.** The next module is the last of those still to look
/// at that has not been; what was noted behind it had been looked at, and what was noted before
/// it is still to come.
pub proof fn the_newest_module_is_looked_at_first(crawl: CrawlState)
    ensures
        ({
            let (after, next) = crawl.advances();
            &&& next matches Some(name) ==> exists|at: int|
                #![trigger crawl.pending[at]]
                {
                    &&& 0 <= at < crawl.pending.len()
                    &&& crawl.pending[at] == name
                    &&& after.pending == crawl.pending.take(at)
                    &&& forall|j: int|
                        at < j < crawl.pending.len() ==> crawl.seen.contains(
                            #[trigger] crawl.pending[j],
                        )
                }
            &&& next is Some ==> after.seen == crawl.seen.push(next->0) && crawl.modules.len()
                < MAX_MODULES
            &&& next is None ==> after.pending.len() == 0
        }),
    decreases crawl.pending.len(),
{
    if crawl.pending.len() > 0 {
        let name = crawl.pending.last();
        let rest = CrawlState { pending: crawl.pending.drop_last(), ..crawl };
        let noted = CrawlState { seen: crawl.seen.push(name), ..rest };
        let (after, next) = crawl.advances();
        let last = crawl.pending.len() - 1;
        assert(crawl.pending[last] == name);
        if crawl.seen.contains(name) {
            the_newest_module_is_looked_at_first(rest);
            if next is Some {
                let at = choose|at: int|
                    #![trigger rest.pending[at]]
                    {
                        &&& 0 <= at < rest.pending.len()
                        &&& rest.pending[at] == next->0
                        &&& after.pending == rest.pending.take(at)
                        &&& forall|j: int|
                            at < j < rest.pending.len() ==> rest.seen.contains(
                                #[trigger] rest.pending[j],
                            )
                    };
                assert(crawl.pending[at] == next->0);
                assert(after.pending =~= crawl.pending.take(at));
                assert forall|j: int| at < j < crawl.pending.len() implies crawl.seen.contains(
                    #[trigger] crawl.pending[j],
                ) by {
                    if j < last {
                        assert(rest.pending[j] == crawl.pending[j]);
                    }
                }
            }
        } else if crawl.modules.len() >= MAX_MODULES {
            the_crawl_is_bounded(noted);
        } else {
            assert(after.pending =~= crawl.pending.take(last));
        }
    }
}

proof fn what_is_unseen_is_imported(
    seen: Seq<Seq<char>>,
    name: Seq<char>,
    imports: Seq<Seq<char>>,
    at: int,
)
    requires
        0 <= at < unseen(seen, name, imports).len(),
    ensures
        !seen.contains(unseen(seen, name, imports)[at]),
        exists|i: int|
            0 <= i < imports.len() && resolved(name, #[trigger] imports[i]) == unseen(
                seen,
                name,
                imports,
            )[at],
    decreases imports.len(),
{
    let fewer = imports.drop_last();
    let before = unseen(seen, name, fewer);
    if at < before.len() {
        what_is_unseen_is_imported(seen, name, fewer, at);
        let i = choose|i: int|
            0 <= i < fewer.len() && resolved(name, #[trigger] fewer[i]) == before[at];
        assert(imports[i] == fewer[i]);
    } else {
        assert(resolved(name, imports[imports.len() - 1]) == unseen(seen, name, imports)[at]);
    }
}

/// **A module that was fetched adds itself and what it imports, and nothing else.** What was
/// still to look at is still to look at; every import that has not been looked at is too; and
/// whatever is added is such an import.
pub proof fn a_fetched_module_adds_what_it_imports(
    crawl: CrawlState,
    name: Seq<char>,
    source: Seq<char>,
    i: int,
    at: int,
)
    ensures
        ({
            let after = crawl.fetches(name, source);
            let many = crawl.pending.len() as int;
            &&& after.seen == crawl.seen
            &&& after.modules == crawl.modules.push((name, source))
            &&& after.pending.len() >= many && after.pending.take(many) == crawl.pending
            &&& 0 <= i < imports_of(source).len() ==> crawl.seen.contains(
                resolved(name, imports_of(source)[i]),
            ) || after.pending.skip(many).contains(resolved(name, imports_of(source)[i]))
            &&& many <= at < after.pending.len() ==> !crawl.seen.contains(after.pending[at])
                && exists|k: int|
                0 <= k < imports_of(source).len() && resolved(
                    name,
                    #[trigger] imports_of(source)[k],
                ) == after.pending[at]
        }),
{
    let after = crawl.fetches(name, source);
    let many = crawl.pending.len() as int;
    let more = unseen(crawl.seen, name, imports_of(source));
    assert(after.pending.take(many) =~= crawl.pending);
    assert(after.pending.skip(many) =~= more);
    if 0 <= i < imports_of(source).len() {
        an_import_is_noted(crawl.seen, name, imports_of(source), i);
    }
    if many <= at < after.pending.len() {
        assert(after.pending[at] == more[at - many]);
        what_is_unseen_is_imported(crawl.seen, name, imports_of(source), at - many);
    }
}

/// **An apostrophe is between two letters.** Only there does a quote count as part of a word, and
/// only where words are minded; letters are those of the alphabet, large or small.
pub proof fn an_apostrophe_is_between_two_letters(
    before: Seq<char>,
    left: char,
    quote: char,
    right: char,
    after: Seq<char>,
)
    ensures
        ({
            let text = before + seq![left, quote, right] + after;
            let at = before.len() as int + 1;
            &&& in_word(text, at) <==> is_letter(left) && is_letter(right)
            &&& is_quote(text, at, quote, false)
            &&& is_quote(text, at, quote, true) <==> !(is_letter(left) && is_letter(right))
        }),
        !in_word(before, 0),
        !in_word(before, before.len() - 1),
        is_letter(left) <==> 65 <= left as int <= 90 || 97 <= left as int <= 122,
{
    let text = before + seq![left, quote, right] + after;
    let at = before.len() as int + 1;
    assert(text[at - 1] == left && text[at] == quote && text[at + 1] == right);
}

/// **A module is fetched from under the base**, by its own name.
pub proof fn a_module_is_fetched_from_under_the_base(base_url: &str, name: &str, url: String)
    requires
        call_ensures(module_url, (base_url, name), url),
    ensures
        begins(url@, base_url@),
        ends(url@, name@),
        url@.len() == base_url@.len() + name@.len(),
{
    crate::text::a_text_begins_and_ends_with_its_parts(base_url@, name@);
}

} // verus!
