//! Subscribing to filter lists, and to the scriptlet bundle that makes half of them work.
//!
//! Two things are fetched: the lists, which are put together into one, and the scriptlet
//! modules, whose import graph is followed from its entry. For each the policy is the same:
//! fetch, keep a copy, fall back to the copy, fall back to the compact built-in list. A panel
//! with no network still blocks ads; one with network stays current.
use crate::span::Span;
use crate::text::{blank, chars_of, is_blank, joined};
use adblock::resources::Resource;
use vstd::prelude::*;
use vstd::utf8::encode_utf8;

pub mod modules;

verus! {

/// The canonical EasyList URL — network-level rules.
pub const EASYLIST_URL: &'static str = "https://easylist.to/easylist/easylist.txt";

/// uBlock Origin's own filters: where the scriptlet rules live.
pub const UBO_FILTERS_URL: &'static str = "https://ublockorigin.github.io/uAssets/filters/filters.txt";

/// uBlock Origin's sources, which module paths are relative to.
pub const UBO_SOURCE_BASE: &'static str = "https://raw.githubusercontent.com/gorhill/uBlock/master/src/js/";

/// How many modules to follow before deciding the import graph is not what we think it is.
pub const MAX_MODULES: usize = 200;

/// How often the lists are fetched again while the receiver runs, in nanoseconds.
pub const REFRESH_INTERVAL: u128 = 86_400_000_000_000;

/// The environment variable that keeps a receiver to what is already cached.
pub const OFFLINE_ENV: &'static str = "CASTAWAY_FILTERLISTS_OFFLINE";

/// A list this short, in bytes, is an error page rather than a list.
pub const SHORTEST_LIST: usize = 1024;

/// A resource of the `adblock` crate: a scriptlet's body, and what it is called.
#[verifier::external_type_specification]
#[verifier::external_body]
pub struct ExResource(adblock::resources::Resource);

/// The resources that a text holds, where it can be read as a list of them.
pub uninterp spec fn resources_in(json: Seq<char>) -> Option<Seq<Resource>>;

/// Read a list of resources: `serde_json::from_str`. Whether it reads, and what it holds,
/// depend on the text alone.
#[verifier::external_body]
fn decode_resources(json: &str) -> (resources: Option<Vec<Resource>>)
    ensures
        match resources {
            Some(resources) => resources_in(json@) == Some(resources@),
            None => resources_in(json@) is None,
        },
{
    serde_json::from_str::<Vec<Resource>>(json).ok()
}

/// The text that a list of resources is written as, where it can be written.
pub uninterp spec fn text_of_resources(resources: Seq<Resource>) -> Option<Seq<char>>;

/// Write a list of resources: `serde_json::to_string`. What is written depends on the list
/// alone, and reads back as that list.
#[verifier::external_body]
fn encode_resources(resources: &Vec<Resource>) -> (json: Option<String>)
    ensures
        match json {
            Some(json) => {
                &&& text_of_resources(resources@) == Some(json@)
                &&& resources_in(json@) == Some(resources@)
            },
            None => text_of_resources(resources@) is None,
        },
{
    serde_json::to_string(resources).ok()
}

/// Where the fetched lists are cached.
#[derive(Debug, Clone)]
pub struct CachePaths {
    /// EasyList.
    pub easylist: String,
    /// uBO's filters.
    pub ubo_filters: String,
    /// uBO's scriptlets.
    pub ubo_scriptlets: String,
}

/// A file in a directory.
pub open spec fn file_in(dir: Seq<char>, name: Seq<char>) -> Seq<char> {
    if dir.len() == 0 {
        name
    } else if dir.last() == '/' {
        dir + name
    } else {
        dir + "/"@ + name
    }
}

/// A file in a directory.
fn under(dir: &str, name: &str) -> (path: String)
    ensures
        path@ == file_in(dir@, name@),
{
    let chars: Vec<char> = chars_of(dir);
    if chars.len() == 0 {
        return String::from_str(name);
    }
    if chars[chars.len() - 1] == '/' {
        return joined(dir, name);
    }
    let slashed = joined(dir, "/");
    joined(slashed.as_str(), name)
}

/// The directory that survives a reboot: the user's own cache, else the one in their home,
/// else wherever temporary files go.
pub open spec fn cache_dir_of(
    xdg: Option<Seq<char>>,
    home: Option<Seq<char>>,
    temp: Seq<char>,
) -> Seq<char> {
    file_in(
        match xdg {
            Some(dir) => dir,
            None => match home {
                Some(home) => file_in(home, ".cache"@),
                None => temp,
            },
        },
        "castaway"@,
    )
}

/// A text, as a spec value.
pub open spec fn text_of(text: Option<String>) -> Option<Seq<char>> {
    match text {
        Some(text) => Some(text@),
        None => None,
    }
}

/// A cache directory that survives a reboot, so a panel that comes up without network still
/// has last week's lists rather than none.
pub fn cache_dir(xdg: &Option<String>, home: &Option<String>, temp: &str) -> (dir: String)
    ensures
        dir@ == cache_dir_of(text_of(*xdg), text_of(*home), temp@),
{
    let base = match xdg {
        Some(dir) => dir.clone(),
        None => match home {
            Some(home) => under(home.as_str(), ".cache"),
            None => String::from_str(temp),
        },
    };
    under(base.as_str(), "castaway")
}

impl CachePaths {
    /// The lists' places in a cache directory.
    pub fn new(dir: &str) -> (paths: CachePaths)
        ensures
            paths.easylist@ == file_in(dir@, "easylist.txt"@),
            paths.ubo_filters@ == file_in(dir@, "ubo-filters.txt"@),
            paths.ubo_scriptlets@ == file_in(dir@, "ubo-scriptlets.json"@),
    {
        CachePaths {
            easylist: under(dir, "easylist.txt"),
            ubo_filters: under(dir, "ubo-filters.txt"),
            ubo_scriptlets: under(dir, "ubo-scriptlets.json"),
        }
    }
}

/// The latest of the times there are.
pub open spec fn latest(times: Seq<Option<Span>>) -> Option<Span>
    decreases times.len(),
{
    if times.len() == 0 {
        None
    } else {
        let before = latest(times.drop_last());
        match (before, times.last()) {
            (Some(a), Some(b)) => Some(
                if b.nanos >= a.nanos {
                    b
                } else {
                    a
                },
            ),
            (Some(a), None) => Some(a),
            (None, last) => last,
        }
    }
}

/// The newest modification time across the cached lists, or `None` if none exist: how a render
/// process notices a refresh.
pub fn cache_stamp(modified: &Vec<Option<Span>>) -> (stamp: Option<Span>)
    ensures
        stamp == latest(modified@),
{
    let mut stamp: Option<Span> = None;
    let mut i: usize = 0;
    while i < modified.len()
        invariant
            i <= modified@.len(),
            stamp == latest(modified@.take(i as int)),
        decreases modified@.len() - i,
    {
        proof {
            assert(modified@.take(i + 1).drop_last() =~= modified@.take(i as int));
            assert(modified@.take(i + 1).last() == modified@[i as int]);
        }
        stamp =
        match (stamp, modified[i]) {
            (Some(a), Some(b)) => if b.nanos >= a.nanos {
                Some(b)
            } else {
                Some(a)
            },
            (Some(a), None) => Some(a),
            (None, last) => last,
        };
        i += 1;
    }
    proof {
        assert(modified@.take(i as int) =~= modified@);
    }
    stamp
}

/// What there is of one list.
#[derive(Debug, Clone)]
pub struct Subscription {
    /// What was fetched, where something was.
    pub fetched: Option<String>,
    /// What is cached, where something is.
    pub cached: Option<String>,
}

/// Which copy of a list is used.
#[derive(Debug, Clone, Copy, PartialEq, Eq, Structural)]
pub enum Copied {
    /// The fetched one, which is to be cached.
    Fetched,
    /// The cached one.
    Cached,
    /// There is none.
    Missing,
}

/// Whether what was fetched is long enough to be a list. A short answer is an error page that
/// would parse as an empty list.
pub open spec fn is_list(text: Seq<char>) -> bool {
    encode_utf8(text).len() > SHORTEST_LIST
}

impl Subscription {
    /// Which copy is used.
    pub open spec fn choice(self) -> Copied {
        if self.fetched matches Some(text) && is_list(text@) {
            Copied::Fetched
        } else if self.cached is Some {
            Copied::Cached
        } else {
            Copied::Missing
        }
    }

    /// The text that is used.
    pub open spec fn text(self) -> Option<Seq<char>> {
        match self.choice() {
            Copied::Fetched => text_of(self.fetched),
            Copied::Cached => text_of(self.cached),
            Copied::Missing => None,
        }
    }

    /// What was fetched, where that is a list; else whatever was cached before.
    pub fn text_for(&self) -> (chosen: (Copied, Option<String>))
        ensures
            chosen.0 == self.choice(),
            text_of(chosen.1) == self.text(),
    {
        if let Some(text) = &self.fetched {
            let bytes: &[u8] = text.as_str().as_bytes();
            if bytes.len() > SHORTEST_LIST {
                return (Copied::Fetched, Some(text.clone()));
            }
        }
        match &self.cached {
            Some(text) => (Copied::Cached, Some(text.clone())),
            None => (Copied::Missing, None),
        }
    }
}

/// Two lists as one, each on lines of its own.
pub open spec fn combined_of(first: Option<Seq<char>>, second: Option<Seq<char>>) -> Seq<char> {
    let head = match first {
        Some(text) => text + "\n"@,
        None => Seq::empty(),
    };
    match second {
        Some(text) => head + text + "\n"@,
        None => head,
    }
}

/// The rules that two lists make: none, where neither says anything.
pub open spec fn rules_of(first: Option<Seq<char>>, second: Option<Seq<char>>) -> Option<
    Seq<char>,
> {
    if is_blank(combined_of(first, second)) {
        None
    } else {
        Some(combined_of(first, second))
    }
}

/// The rules that two lists make.
fn rules(first: &Option<String>, second: &Option<String>) -> (rules: Option<String>)
    ensures
        text_of(rules) == rules_of(text_of(*first), text_of(*second)),
{
    let mut combined: String = String::new();
    if let Some(text) = first {
        combined.append(text.as_str());
        combined.append("\n");
    }
    if let Some(text) = second {
        combined.append(text.as_str());
        combined.append("\n");
    }
    proof {
        assert(combined@ =~= combined_of(text_of(*first), text_of(*second)));
    }
    if blank(combined.as_str()) {
        None
    } else {
        Some(combined)
    }
}

/// What a blocker is built from.
pub struct Loaded {
    /// The rules; where there are none, the compact built-in list stands in.
    pub rules: Option<String>,
    /// The scriptlets' bodies. Without them, scriptlet rules match and inject nothing.
    pub resources: Vec<Resource>,
}

/// The resources of a cached text.
pub open spec fn cached_resources(json: Option<Seq<char>>) -> Option<Seq<Resource>> {
    match json {
        Some(json) => resources_in(json),
        None => None,
    }
}

/// The resources of the cached text, where there is one and it can be read.
fn read_cached_resources(json: &Option<String>) -> (resources: Option<Vec<Resource>>)
    ensures
        match resources {
            Some(resources) => cached_resources(text_of(*json)) == Some(resources@),
            None => cached_resources(text_of(*json)) is None,
        },
{
    match json {
        Some(json) => decode_resources(json.as_str()),
        None => None,
    }
}

/// What the scriptlets' bodies are: those that were just evaluated, where there are any; else
/// those that are cached; else none.
pub open spec fn scriptlets_of(evaluated: Option<Seq<Resource>>, cached: Option<Seq<char>>) -> Seq<
    Resource,
> {
    match evaluated {
        Some(fresh) if fresh.len() > 0 => fresh,
        _ => match cached_resources(cached) {
            Some(kept) => kept,
            None => Seq::empty(),
        },
    }
}

/// The resources that were evaluated, as a spec value.
pub open spec fn evaluated_view(evaluated: Option<Vec<Resource>>) -> Option<Seq<Resource>> {
    match evaluated {
        Some(resources) => Some(resources@),
        None => None,
    }
}

/// What is to be cached of the scriptlets: the text of those that were just evaluated, where
/// there are any.
pub open spec fn fresh_text(evaluated: Option<Seq<Resource>>) -> Option<Seq<char>> {
    match evaluated {
        Some(fresh) if fresh.len() > 0 => text_of_resources(fresh),
        _ => None,
    }
}

/// What the scriptlets' bodies are, and the text to cache them as where they are new.
///
/// The *converted* resources are cached rather than the raw modules, so that a render process
/// loads them without evaluating anything.
pub fn scriptlets(evaluated: Option<Vec<Resource>>, cached: &Option<String>) -> (chosen: (
    Vec<Resource>,
    Option<String>,
))
    ensures
        chosen.0@ == scriptlets_of(evaluated_view(evaluated), text_of(*cached)),
        text_of(chosen.1) == fresh_text(evaluated_view(evaluated)),
        chosen.1 matches Some(json) ==> resources_in(json@) == evaluated_view(evaluated),
{
    if let Some(resources) = evaluated {
        if resources.len() > 0 {
            let json = encode_resources(&resources);
            return (resources, json);
        }
    }
    match read_cached_resources(cached) {
        Some(resources) => (resources, None),
        None => (Vec::new(), None),
    }
}

/// Build a blocker's parts from what was fetched and what is cached: the rules of both lists
/// in one, and the scriptlets' bodies. Says which lists are to be cached, and the scriptlets'
/// text where they are new.
pub fn load_or_fetch_all_from(
    easylist: &Subscription,
    ubo_filters: &Subscription,
    evaluated: Option<Vec<Resource>>,
    cached_scriptlets: &Option<String>,
) -> (loaded: (Loaded, Copied, Copied, Option<String>))
    ensures
        text_of(loaded.0.rules) == rules_of(easylist.text(), ubo_filters.text()),
        loaded.0.resources@ == scriptlets_of(
            evaluated_view(evaluated),
            text_of(*cached_scriptlets),
        ),
        loaded.1 == easylist.choice(),
        loaded.2 == ubo_filters.choice(),
        text_of(loaded.3) == fresh_text(evaluated_view(evaluated)),
        loaded.3 matches Some(json) ==> resources_in(json@) == evaluated_view(evaluated),
{
    let (first_copy, first) = easylist.text_for();
    let (second_copy, second) = ubo_filters.text_for();
    let rules = rules(&first, &second);
    let (resources, json) = scriptlets(evaluated, cached_scriptlets);
    (Loaded { rules, resources }, first_copy, second_copy, json)
}

/// Build a blocker's parts from whatever is already cached. `None` when there is no cached
/// list at all, so the caller can skip injection rather than build an engine that would match
/// nothing.
pub fn load_cached_only(
    easylist: &Option<String>,
    ubo_filters: &Option<String>,
    scriptlets: &Option<String>,
) -> (loaded: Option<Loaded>)
    ensures
        match loaded {
            Some(loaded) => {
                &&& loaded.rules is Some
                &&& text_of(loaded.rules) == rules_of(text_of(*easylist), text_of(*ubo_filters))
                &&& loaded.resources@ == scriptlets_of(None, text_of(*scriptlets))
            },
            None => rules_of(text_of(*easylist), text_of(*ubo_filters)) is None,
        },
{
    match rules(easylist, ubo_filters) {
        Some(rules) => {
            let resources = match read_cached_resources(scriptlets) {
                Some(resources) => resources,
                None => Vec::new(),
            };
            Some(Loaded { rules: Some(rules), resources })
        },
        None => None,
    }
}

/// **What was cached reads back.** The scriptlets that a refresh evaluated and cached are the
/// ones that a later start finds, when it can evaluate none of its own.
pub proof fn cached_scriptlets_read_back(evaluated: Seq<Resource>, json: Seq<char>)
    requires
        resources_in(json) == Some(evaluated),
    ensures
        scriptlets_of(None, Some(json)) == evaluated,
{
}

/// **Both subscriptions end up in one list**, each whole and each ending its own line.
pub proof fn both_subscriptions_survive(first: Seq<char>, second: Seq<char>)
    ensures
        ({
            let all = combined_of(Some(first), Some(second));
            &&& all.len() == first.len() + second.len() + 2
            &&& all.take(first.len() as int) == first
            &&& all[first.len() as int] == '\n'
            &&& all.subrange(first.len() as int + 1, first.len() as int + 1 + second.len()) == second
            &&& all.last() == '\n'
        }),
{
    reveal_strlit("\n");
    let all = combined_of(Some(first), Some(second));
    assert(all.take(first.len() as int) =~= first);
    assert(all.subrange(first.len() as int + 1, first.len() as int + 1 + second.len()) =~= second);
}

/// **A failed fetch falls back to the cache**, and leaves what is cached as it is.
pub proof fn a_failed_fetch_falls_back(subscription: Subscription)
    requires
        subscription.fetched is None,
    ensures
        subscription.text() == text_of(subscription.cached),
        subscription.choice() != Copied::Fetched,
{
}

/// **A file is in its directory.** Its path begins with the directory and ends with its name
/// behind one slash, whether or not the directory was written with one.
pub proof fn a_file_is_in_its_directory(dir: Seq<char>, name: Seq<char>)
    ensures
        crate::text::begins(file_in(dir, name), dir),
        crate::text::ends(file_in(dir, name), name),
        dir.len() == 0 ==> file_in(dir, name) == name,
        dir.len() > 0 && dir.last() != '/' ==> file_in(dir, name) == file_in(
            dir.push('/'),
            name,
        ),
        dir.len() > 0 ==> file_in(dir, name)[file_in(dir, name).len() - name.len() - 1] == '/',
{
    reveal_strlit("/");
    let path = file_in(dir, name);
    assert(path.take(dir.len() as int) =~= dir);
    assert(path.skip(path.len() - name.len()) =~= name);
    if dir.len() > 0 && dir.last() != '/' {
        assert(dir.push('/').last() == '/');
        assert(file_in(dir.push('/'), name) =~= path);
    }
}

/// **The user's own cache comes first, then their home, and last what is temporary.** What comes
/// later is not even looked at.
pub proof fn the_users_own_cache_comes_first(
    xdg: Option<Seq<char>>,
    home: Option<Seq<char>>,
    temp: Seq<char>,
    other: Option<Seq<char>>,
    elsewhere: Seq<char>,
)
    ensures
        xdg matches Some(dir) ==> cache_dir_of(xdg, home, temp) == file_in(dir, "castaway"@)
            && cache_dir_of(xdg, home, temp) == cache_dir_of(xdg, other, elsewhere),
        xdg is None ==> (home matches Some(dir) ==> cache_dir_of(xdg, home, temp) == file_in(
            file_in(dir, ".cache"@),
            "castaway"@,
        ) && cache_dir_of(xdg, home, temp) == cache_dir_of(xdg, home, elsewhere)),
        xdg is None && home is None ==> cache_dir_of(xdg, home, temp) == file_in(
            temp,
            "castaway"@,
        ),
{
}

/// **The latest time is one of them, and none is later.** There is one exactly where there is
/// any.
pub proof fn the_latest_is_one_of_them(times: Seq<Option<Span>>)
    ensures
        latest(times) is Some <==> exists|i: int| 0 <= i < times.len() && (#[trigger] times[i])
            is Some,
        latest(times) is Some ==> times.contains(latest(times)),
        forall|i: int|
            0 <= i < times.len() && (#[trigger] times[i]) is Some ==> (times[i]->0)@ <= (latest(
                times,
            )->0)@,
    decreases times.len(),
{
    if times.len() > 0 {
        let before = times.drop_last();
        the_latest_is_one_of_them(before);
        assert(times[times.len() - 1] == times.last());
        if latest(before) is Some {
            let k = choose|k: int| 0 <= k < before.len() && before[k] == latest(before);
            assert(times[k] == latest(before));
        }
        assert forall|i: int| 0 <= i < times.len() && (#[trigger] times[i]) is Some implies (
        times[i]->0)@ <= (latest(times)->0)@ by {
            if i < before.len() {
                assert(before[i] == times[i]);
            }
        }
        if exists|i: int| 0 <= i < times.len() && (#[trigger] times[i]) is Some {
            let i = choose|i: int| 0 <= i < times.len() && (#[trigger] times[i]) is Some;
            if i < before.len() {
                assert(before[i] == times[i]);
            }
        }
    }
}

/// **A list that came is used, and only a list.** What was fetched is used, and cached, exactly
/// where it is long enough to be a list; otherwise what is cached is; and there is no text only
/// where there is neither.
pub proof fn a_list_that_came_is_used(subscription: Subscription)
    ensures
        subscription.choice() == Copied::Fetched <==> (subscription.fetched matches Some(text)
            && encode_utf8(text@).len() > 1024),
        subscription.choice() == Copied::Fetched ==> subscription.text() == text_of(
            subscription.fetched,
        ),
        subscription.choice() != Copied::Fetched ==> subscription.text() == text_of(
            subscription.cached,
        ),
        subscription.choice() == Copied::Missing <==> subscription.text() is None,
{
}

/// **There are rules exactly where either list says anything**, and they are all of both.
pub proof fn rules_are_all_of_both(first: Option<Seq<char>>, second: Option<Seq<char>>)
    ensures
        rules_of(first, second) is None <==> (first matches Some(text) ==> is_blank(text)) && (
        second matches Some(text) ==> is_blank(text)),
        rules_of(first, second) is Some ==> {
            let all = rules_of(first, second)->0;
            &&& first matches Some(text) ==> crate::text::begins(all, text)
            &&& second matches Some(text) ==> crate::text::ends(all, text + "\n"@)
            &&& all.len() == (match first {
                Some(text) => text.len() + 1,
                None => 0,
            }) + (match second {
                Some(text) => text.len() + 1,
                None => 0,
            })
        },
{
    reveal_strlit("\n");
    let end = "\n"@;
    let all = combined_of(first, second);
    let head = match first {
        Some(text) => text + end,
        None => Seq::empty(),
    };
    let tail = match second {
        Some(text) => text + end,
        None => Seq::empty(),
    };
    assert(all =~= head + tail);
    assert(is_blank(end)) by {
        assert(crate::text::is_space(end[0]));
    }
    crate::text::a_text_begins_and_ends_with_its_parts(head, tail);
    if let Some(text) = first {
        crate::text::a_text_begins_and_ends_with_its_parts(text, end);
        assert(all.take(text.len() as int) =~= text);
    }
    if let Some(text) = second {
        crate::text::a_text_begins_and_ends_with_its_parts(text, end);
    }
}

/// **Fresh scriptlets win and are cached; old ones do for want of fresh.** Scriptlets that were
/// just evaluated are used and written down; where none were, those that are cached are used and
/// nothing is written.
pub proof fn fresh_scriptlets_win(evaluated: Option<Seq<Resource>>, cached: Option<Seq<char>>)
    ensures
        (evaluated matches Some(fresh) && fresh.len() > 0) ==> scriptlets_of(evaluated, cached)
            == evaluated->0 && fresh_text(evaluated) == text_of_resources(evaluated->0),
        !(evaluated matches Some(fresh) && fresh.len() > 0) ==> {
            &&& fresh_text(evaluated) is None
            &&& scriptlets_of(evaluated, cached) == scriptlets_of(None, cached)
            &&& cached matches Some(json) ==> (resources_in(json) matches Some(kept)
                ==> scriptlets_of(evaluated, cached) == kept)
            &&& cached is None ==> scriptlets_of(evaluated, cached).len() == 0
        },
{
}

/// **Nothing is lost in looking.** What there is of a text or of resources is all of it, and
/// there is none exactly where there was none.
pub proof fn nothing_is_lost_in_looking(text: Option<String>, evaluated: Option<Vec<Resource>>)
    ensures
        text_of(text) is Some <==> text is Some,
        text matches Some(held) ==> text_of(text) == Some(held@),
        evaluated_view(evaluated) is Some <==> evaluated is Some,
        evaluated matches Some(held) ==> evaluated_view(evaluated) == Some(held@),
{
}

} // verus!
