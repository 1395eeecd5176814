//! The metadata fetched for a document's links, filed under every key a page
//! may look a link up by, and its JSON form embedded in the page.

use vstd::prelude::*;
use crate::text::{chars_of, seq_eq, slice_vec, string_of};

verus! {

/// What was fetched for one link: its title and description, where found.
#[derive(Clone, Debug)]
pub struct Annotation {
    pub title: Option<String>,
    pub description: Option<String>,
}

/// The metadata that a link maps to.
pub type AnnotationView = (Option<Seq<char>>, Option<Seq<char>>);

impl Annotation {
    pub open spec fn view(&self) -> AnnotationView {
        (crate::loader::opt_view(self.title), crate::loader::opt_view(self.description))
    }

    /// The entry of a link whose fetch failed or timed out.
    pub fn empty() -> (r: Annotation)
        ensures
            r.view() == (None::<Seq<char>>, None::<Seq<char>>),
    {
        Annotation { title: None, description: None }
    }
}

/// The metadata of a document's links, under every key a page may look a link
/// up by.
pub struct AnnotationMap {
    pub entries: Vec<(String, Annotation)>,
}

impl AnnotationMap {
    /// No key is listed twice.
    pub open spec fn wf(&self) -> bool {
        forall|i: int, j: int|
            0 <= i < j < self.entries@.len() ==> (#[trigger] self.entries@[i]).0@ != (
            #[trigger] self.entries@[j]).0@
    }

    /// The map from each key to its metadata.
    pub open spec fn view(&self) -> Map<Seq<char>, AnnotationView> {
        Map::new(
            |k: Seq<char>| exists|i: int| 0 <= i < self.entries@.len() && (#[trigger] self.entries@[i]).0@ == k,
            |k: Seq<char>|
                {
                    let i = choose|i: int| 0 <= i < self.entries@.len() && (#[trigger] self.entries@[i]).0@ == k;
                    self.entries@[i].1.view()
                },
        )
    }

    pub fn new() -> (r: AnnotationMap)
        ensures
            r.wf(),
            r.view() == Map::<Seq<char>, AnnotationView>::empty(),
    {
        let r = AnnotationMap { entries: Vec::new() };
        assert(r.view() =~= Map::<Seq<char>, AnnotationView>::empty());
        r
    }

    pub fn len(&self) -> (r: usize)
        requires
            self.wf(),
        ensures
            r == self.view().dom().len(),
            r == 0 <==> self.view() == Map::<Seq<char>, AnnotationView>::empty(),
    {
        proof {
            self.lemma_dom_len();
        }
        self.entries.len()
    }

    proof fn lemma_dom_len(&self)
        requires
            self.wf(),
        ensures
            self.view().dom().len() == self.entries@.len(),
            self.entries@.len() == 0 <==> self.view() == Map::<Seq<char>, AnnotationView>::empty(),
        decreases self.entries@.len(),
    {
        let keys = self.entries@.map_values(|e: (String, Annotation)| e.0@);
        assert(keys.no_duplicates()) by {
            assert forall|i: int, j: int| 0 <= i < keys.len() && 0 <= j < keys.len() && i != j implies keys[i]
                != keys[j] by {
                if i < j {
                    assert(self.entries@[i].0@ != self.entries@[j].0@);
                } else {
                    assert(self.entries@[j].0@ != self.entries@[i].0@);
                }
            }
        }
        assert(self.view().dom() =~= keys.to_set()) by {
            assert forall|k: Seq<char>| self.view().dom().contains(k) implies keys.to_set().contains(k) by {
                let i = choose|i: int| 0 <= i < self.entries@.len() && (#[trigger] self.entries@[i]).0@ == k;
                assert(keys[i] == k);
            }
            assert forall|k: Seq<char>| keys.to_set().contains(k) implies self.view().dom().contains(k) by {
                let i = choose|i: int| 0 <= i < keys.len() && keys[i] == k;
                assert(self.entries@[i].0@ == k);
            }
        }
        keys.unique_seq_to_set();
        if self.entries@.len() != 0 {
            assert(self.view().dom().contains(self.entries@[0].0@));
        } else {
            assert(self.view() =~= Map::<Seq<char>, AnnotationView>::empty());
        }
    }

    /// Files `a` under `key`, replacing what was filed there.
    pub fn insert(&mut self, key: String, a: Annotation)
        requires
            old(self).wf(),
        ensures
            final(self).wf(),
            final(self).view() == old(self).view().insert(key@, a.view()),
    {
        let k = chars_of(key.as_str());
        let mut i: usize = 0;
        while i < self.entries.len()
            invariant
                i <= self.entries@.len(),
                k@ == key@,
                self.wf(),
                self.entries@ == old(self).entries@,
                forall|j: int| 0 <= j < i ==> (#[trigger] self.entries@[j]).0@ != key@,
            decreases self.entries@.len() - i,
        {
            let ek = chars_of(self.entries[i].0.as_str());
            if seq_eq(&ek, &k) {
                let ghost before = self.entries@;
                self.entries.set(i, (key, a));
                proof {
                    assert(self.entries@ == before.update(i as int, (key, a)));
                    assert forall|x: int, y: int| 0 <= x < y < self.entries@.len() implies (
                    #[trigger] self.entries@[x]).0@ != (#[trigger] self.entries@[y]).0@ by {
                        if x != i && y != i {
                            assert(before[x] == self.entries@[x] && before[y] == self.entries@[y]);
                        } else if x == i {
                            assert(before[y] == self.entries@[y]);
                            assert(before[x].0@ == key@);
                        } else {
                            assert(before[x] == self.entries@[x]);
                            assert(before[y].0@ == key@);
                        }
                    }
                    let old_view = Map::new(
                        |kk: Seq<char>| exists|j: int| 0 <= j < before.len() && (#[trigger] before[j]).0@ == kk,
                        |kk: Seq<char>|
                            {
                                let j = choose|j: int| 0 <= j < before.len() && (#[trigger] before[j]).0@ == kk;
                                before[j].1.view()
                            },
                    );
                    assert(self.view() =~= old_view.insert(key@, a.view())) by {
                        assert forall|kk: Seq<char>| #[trigger] self.view().dom().contains(kk) == old_view.insert(key@, a.view()).dom().contains(kk) by {
                            if kk == key@ {
                                assert(self.entries@[i as int].0@ == kk);
                                assert(before[i as int].0@ == kk);
                            } else if self.view().dom().contains(kk) {
                                let j = choose|j: int| 0 <= j < self.entries@.len() && (#[trigger] self.entries@[j]).0@ == kk;
                                assert(before[j] == self.entries@[j]);
                            } else if old_view.dom().contains(kk) {
                                let j = choose|j: int| 0 <= j < before.len() && (#[trigger] before[j]).0@ == kk;
                                assert(before[j] == self.entries@[j]);
                            }
                        }
                        assert forall|kk: Seq<char>| #[trigger] self.view().dom().contains(kk) implies self.view()[kk] == old_view.insert(key@, a.view())[kk] by {
                            let j = choose|j: int| 0 <= j < self.entries@.len() && (#[trigger] self.entries@[j]).0@ == kk;
                            if kk == key@ {
                                assert(j == i);
                            } else {
                                assert(before[j] == self.entries@[j]);
                                let j2 = choose|j2: int| 0 <= j2 < before.len() && (#[trigger] before[j2]).0@ == kk;
                                assert(j2 == j) by {
                                    if j2 != j {
                                        if j2 < j {
                                            assert(before[j2].0@ != before[j].0@);
                                        } else {
                                            assert(before[j].0@ != before[j2].0@);
                                        }
                                    }
                                }
                            }
                        }
                    }
                }
                return;
            }
            i = i + 1;
        }
        let ghost before = self.entries@;
        self.entries.push((key, a));
        proof {
            assert(self.entries@ == before.push((key, a)));
            assert forall|x: int, y: int| 0 <= x < y < self.entries@.len() implies (
            #[trigger] self.entries@[x]).0@ != (#[trigger] self.entries@[y]).0@ by {
                assert(before[x] == self.entries@[x]);
                if y < before.len() {
                    assert(before[y] == self.entries@[y]);
                }
            }
            let old_view = Map::new(
                |kk: Seq<char>| exists|j: int| 0 <= j < before.len() && (#[trigger] before[j]).0@ == kk,
                |kk: Seq<char>|
                    {
                        let j = choose|j: int| 0 <= j < before.len() && (#[trigger] before[j]).0@ == kk;
                        before[j].1.view()
                    },
            );
            assert(self.view() =~= old_view.insert(key@, a.view())) by {
                assert forall|kk: Seq<char>| #[trigger] self.view().dom().contains(kk) == old_view.insert(key@, a.view()).dom().contains(kk) by {
                    if kk == key@ {
                        assert(self.entries@[before.len() as int].0@ == kk);
                    } else if self.view().dom().contains(kk) {
                        let j = choose|j: int| 0 <= j < self.entries@.len() && (#[trigger] self.entries@[j]).0@ == kk;
                        assert(before[j] == self.entries@[j]);
                    } else if old_view.dom().contains(kk) {
                        let j = choose|j: int| 0 <= j < before.len() && (#[trigger] before[j]).0@ == kk;
                        assert(before[j] == self.entries@[j]);
                    }
                }
                assert forall|kk: Seq<char>| #[trigger] self.view().dom().contains(kk) implies self.view()[kk] == old_view.insert(key@, a.view())[kk] by {
                    let j = choose|j: int| 0 <= j < self.entries@.len() && (#[trigger] self.entries@[j]).0@ == kk;
                    if kk == key@ {
                        assert(j == before.len());
                    } else {
                        assert(before[j] == self.entries@[j]);
                        let j2 = choose|j2: int| 0 <= j2 < before.len() && (#[trigger] before[j2]).0@ == kk;
                        assert(j2 == j) by {
                            if j2 != j {
                                if j2 < j {
                                    assert(before[j2].0@ != before[j].0@);
                                } else {
                                    assert(before[j].0@ != before[j2].0@);
                                }
                            }
                        }
                    }
                }
            }
        }
    }
}

} // verus!

verus! {

/// `s` without the slashes at its end.
pub open spec fn trim_end_slashes(s: Seq<char>) -> Seq<char>
    decreases s.len(),
{
    if s.len() > 0 && s.last() == '/' {
        trim_end_slashes(s.drop_last())
    } else {
        s
    }
}

/// The other spelling of a canonical key: without its trailing slashes if it
/// has one, else with one.
pub open spec fn slash_variant(k: Seq<char>) -> Seq<char> {
    if k.len() > 0 && k.last() == '/' {
        trim_end_slashes(k)
    } else {
        k.push('/')
    }
}

/// `m` with the metadata `a` of the link `url` filed under its canonical form,
/// the other trailing-slash spelling of that form, and the link as written.
pub open spec fn with_link(m: Map<Seq<char>, AnnotationView>, url: Seq<char>, a: AnnotationView) -> Map<
    Seq<char>,
    AnnotationView,
> {
    let k = crate::url::canonical(url);
    m.insert(k, a).insert(slash_variant(k), a).insert(url, a)
}

fn slash_variant_exec(k: &[char]) -> (r: Vec<char>)
    ensures
        r@ == slash_variant(k@),
{
    if k.len() > 0 && k[k.len() - 1] == '/' {
        let mut e: usize = k.len();
        assert(k@.take(k@.len() as int) == k@);
        while e > 0 && k[e - 1] == '/'
            invariant
                e <= k@.len(),
                trim_end_slashes(k@) == trim_end_slashes(k@.take(e as int)),
            decreases e,
        {
            assert(k@.take(e as int).drop_last() == k@.take(e - 1));
            e = e - 1;
        }
        assert(k@.subrange(0, e as int) == k@.take(e as int));
        slice_vec(k, 0, e)
    } else {
        let mut r = slice_vec(k, 0, k.len());
        assert(k@.subrange(0, k@.len() as int) == k@);
        r.push('/');
        r
    }
}

impl AnnotationMap {
    /// Files the metadata fetched for `url` under each key it may be looked up
    /// by. Every other key keeps its entry: a link whose fetch failed (with
    /// `Annotation::empty()`) takes nothing from the others.
    pub fn register(&mut self, url: &str, meta: Annotation)
        requires
            old(self).wf(),
        ensures
            final(self).wf(),
            final(self).view() == with_link(old(self).view(), url@, meta.view()),
            forall|k: Seq<char>|
                #![trigger final(self).view()[k]]
                k == crate::url::canonical(url@) || k == slash_variant(crate::url::canonical(url@)) || k
                    == url@ ==> final(self).view().contains_key(k) && final(self).view()[k]
                    == meta.view(),
            forall|k: Seq<char>|
                #![trigger old(self).view()[k]]
                old(self).view().contains_key(k) && k != crate::url::canonical(url@) && k != slash_variant(
                    crate::url::canonical(url@),
                ) && k != url@ ==> final(self).view().contains_key(k) && final(self).view()[k] == old(
                    self,
                ).view()[k],
    {
        let main = crate::url::canonicalize_url(url);
        let main_chars = chars_of(main.as_str());
        let alt = slash_variant_exec(&main_chars);
        self.insert(main, meta.clone_annotation());
        self.insert(string_of(&alt), meta.clone_annotation());
        self.insert(String::from_str(url), meta);
    }
}

impl Annotation {
    /// A copy of this entry.
    pub fn clone_annotation(&self) -> (r: Annotation)
        ensures
            r.view() == self.view(),
    {
        Annotation {
            title: match &self.title {
                Some(t) => Some(t.clone()),
                None => None,
            },
            description: match &self.description {
                Some(d) => Some(d.clone()),
                None => None,
            },
        }
    }
}

/// The map that the fetched metadata `metas[i]` of each link `urls[i]` makes,
/// filed in order, a later link overriding an earlier one on a shared key.
pub open spec fn links_map(urls: Seq<Seq<char>>, metas: Seq<AnnotationView>) -> Map<Seq<char>, AnnotationView>
    decreases urls.len(),
{
    if urls.len() == 0 || metas.len() == 0 {
        Map::empty()
    } else {
        with_link(links_map(urls.drop_last(), metas.drop_last()), urls.last(), metas.last())
    }
}

/// The map of a document's fetched link metadata: `metas[i]` was fetched for
/// `urls[i]` (empty where the fetch failed).
pub fn build_annotation_map(urls: &Vec<String>, metas: Vec<Annotation>) -> (r: AnnotationMap)
    requires
        urls@.len() == metas@.len(),
    ensures
        r.wf(),
        r.view() == links_map(
            urls@.map_values(|u: String| u@),
            metas@.map_values(|a: Annotation| a.view()),
        ),
{
    let ghost us = urls@.map_values(|u: String| u@);
    let ghost ms = metas@.map_values(|a: Annotation| a.view());
    let mut m = AnnotationMap::new();
    let mut i: usize = 0;
    assert(us.take(0).len() == 0);
    while i < urls.len()
        invariant
            i <= urls@.len(),
            urls@.len() == metas@.len(),
            us == urls@.map_values(|u: String| u@),
            ms == metas@.map_values(|a: Annotation| a.view()),
            m.wf(),
            m.view() == links_map(us.take(i as int), ms.take(i as int)),
        decreases urls@.len() - i,
    {
        assert(us.take(i + 1).drop_last() == us.take(i as int));
        assert(ms.take(i + 1).drop_last() == ms.take(i as int));
        assert(us.take(i + 1).last() == urls@[i as int]@);
        assert(ms.take(i + 1).last() == metas@[i as int].view());
        let a = metas[i].clone_annotation();
        m.register(urls[i].as_str(), a);
        i = i + 1;
    }
    assert(us.take(urls@.len() as int) == us);
    assert(ms.take(metas@.len() as int) == ms);
    m
}

/// The JSON object text that maps each key to an object of its named text fields.
pub uninterp spec fn annotations_json(entries: Seq<(Seq<char>, Seq<(Seq<char>, Seq<char>)>)>) -> Seq<char>;

/// The fields written for one entry: `title` and `description`, where present.
pub open spec fn json_fields(a: AnnotationView) -> Seq<(Seq<char>, Seq<char>)> {
    let t: Seq<(Seq<char>, Seq<char>)> = match a.0 {
        Some(x) => seq![("title"@, x)],
        None => Seq::empty(),
    };
    match a.1 {
        Some(d) => t.push(("description"@, d)),
        None => t,
    }
}

/// The keys of a map with the fields of their entries, in the map's order.
pub open spec fn json_entries(v: Seq<(String, Annotation)>) -> Seq<(Seq<char>, Seq<(Seq<char>, Seq<char>)>)> {
    v.map_values(|e: (String, Annotation)| (e.0@, json_fields(e.1.view())))
}

pub open spec fn field_views(v: Seq<(String, String)>) -> Seq<(Seq<char>, Seq<char>)> {
    v.map_values(|f: (String, String)| (f.0@, f.1@))
}

pub open spec fn entry_views(v: Seq<(String, Vec<(String, String)>)>) -> Seq<(Seq<char>, Seq<(Seq<char>, Seq<char>)>)> {
    v.map_values(|e: (String, Vec<(String, String)>)| (e.0@, field_views(e.1@)))
}

/// Relies on `serde_json::to_string` of a `serde_json::Value` object holding,
/// for each key, an object of string fields; an encoding error gives the empty
/// text.
#[verifier::external_body]
fn encode_annotations(entries: &Vec<(String, Vec<(String, String)>)>) -> (r: String)
    ensures
        r@ == annotations_json(entry_views(entries@)),
{
    let mut map = serde_json::Map::new();
    for (key, fields) in entries.iter() {
        let obj: serde_json::Map<String, serde_json::Value> =
            fields.iter().map(|(f, t)| (f.clone(), serde_json::Value::String(t.clone()))).collect();
        map.insert(key.clone(), serde_json::Value::Object(obj));
    }
    serde_json::to_string(&serde_json::Value::Object(map)).unwrap_or_default()
}

fn fields_of(a: &Annotation) -> (r: Vec<(String, String)>)
    ensures
        field_views(r@) == json_fields(a.view()),
{
    let mut r: Vec<(String, String)> = Vec::new();
    match &a.title {
        Some(t) => r.push((String::from_str("title"), t.clone())),
        None => {},
    }
    match &a.description {
        Some(d) => r.push((String::from_str("description"), d.clone())),
        None => {},
    }
    assert(field_views(r@) =~= json_fields(a.view()));
    r
}

/// The embedded metadata payload of a page: nothing when no link was found,
/// else the JSON text of the map.
pub fn annotation_meta_json(m: &AnnotationMap) -> (r: Option<String>)
    requires
        m.wf(),
    ensures
        r is None <==> m.view() == Map::<Seq<char>, AnnotationView>::empty(),
        r matches Some(s) ==> s@ == annotations_json(json_entries(m.entries@)),
{
    if m.len() == 0 {
        return None;
    }
    let mut entries: Vec<(String, Vec<(String, String)>)> = Vec::new();
    let mut i: usize = 0;
    while i < m.entries.len()
        invariant
            i <= m.entries@.len(),
            entry_views(entries@) == json_entries(m.entries@.take(i as int)),
        decreases m.entries@.len() - i,
    {
        let fields = fields_of(&m.entries[i].1);
        let ghost before = entries@;
        entries.push((m.entries[i].0.clone(), fields));
        assert(entry_views(entries@) =~= entry_views(before).push((m.entries@[i as int].0@, json_fields(m.entries@[i as int].1.view()))));
        assert(m.entries@.take(i + 1) == m.entries@.take(i as int).push(m.entries@[i as int]));
        assert(json_entries(m.entries@.take(i + 1)) =~= json_entries(m.entries@.take(i as int)).push((m.entries@[i as int].0@, json_fields(m.entries@[i as int].1.view()))));
        i = i + 1;
    }
    assert(m.entries@.take(m.entries@.len() as int) == m.entries@);
    Some(encode_annotations(&entries))
}

} // verus!
