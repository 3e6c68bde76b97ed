use vstd::prelude::*;

use crate::strutil::contains_seq;

verus! {

/// One topic a package may be filed under.
pub struct CTANTopic {
    pub details: String,
    pub key: String,
}

/// One package of the embedded package catalogue.
pub struct CTANPackage {
    pub id: String,
    pub name: String,
    pub caption: String,
    pub version: String,
    pub topics: Option<Vec<CTANTopic>>,
    pub home: Option<String>,
    pub ctan: Option<String>,
}

/// The lightweight listing row of one package.
pub struct PackageListItem {
    pub id: String,
    pub name: String,
    pub caption: String,
    pub version: String,
    pub home: Option<String>,
    pub ctan: Option<String>,
}

/// One page of listing rows, with the unpaginated match count.
pub struct PackageResponse {
    pub total: usize,
    pub packages: Vec<PackageListItem>,
}

/// Names the lower-case folding of a text: a function of the characters
/// alone.
pub uninterp spec fn lower_of(s: Seq<char>) -> Seq<char>;

/// Relies on str::to_lowercase: the folding depends on the characters
/// alone.
#[verifier::external_body]
fn lowercase(s: &str) -> (r: String)
    ensures
        r@ == lower_of(s@),
{
    s.to_lowercase()
}

/// The pre-folded search row of one package.
pub struct SearchIndex {
    pub name_lower: String,
    pub id_lower: String,
    pub caption_lower: Option<String>,
    pub topic_keys: Vec<String>,
}

/// The topic keys of a package, in order.
pub open spec fn topic_keys_of(p: CTANPackage) -> Seq<Seq<char>> {
    match p.topics {
        Some(ts) => ts@.map(|i: int, t: CTANTopic| t.key@),
        None => Seq::empty(),
    }
}

/// The search row folds exactly its package's fields.
pub open spec fn index_for(e: SearchIndex, p: CTANPackage) -> bool {
    &&& e.name_lower@ == lower_of(p.name@)
    &&& e.id_lower@ == lower_of(p.id@)
    &&& (e.caption_lower matches Some(c) && c@ == lower_of(p.caption@))
    &&& e.topic_keys@.map(|i: int, s: String| s@) == topic_keys_of(p)
}

/// The catalogue with its pre-folded search rows, one per package, in the
/// order the packages were handed in.
pub struct PackageDatabase {
    pub packages: Vec<CTANPackage>,
    pub search_index: Vec<SearchIndex>,
}

impl PackageDatabase {
    /// One search row per package, each folding its package.
    pub open spec fn wf(&self) -> bool {
        &&& self.search_index@.len() == self.packages@.len()
        &&& forall|i: int|
            0 <= i < self.packages@.len() ==> index_for(
                #[trigger] self.search_index@[i],
                self.packages@[i],
            )
    }

    /// Builds the catalogue around the given packages, folding each one's
    /// searchable fields once. The packages keep the order they came in;
    /// the caller orders them.
    pub fn new(packages: Vec<CTANPackage>) -> (db: Self)
        ensures
            db.wf(),
            db.packages@ == packages@,
    {
        let mut search_index: Vec<SearchIndex> = Vec::new();
        let mut i: usize = 0;
        while i < packages.len()
            invariant
                i <= packages@.len(),
                search_index@.len() == i,
                forall|k: int|
                    0 <= k < i ==> index_for(#[trigger] search_index@[k], packages@[k]),
            decreases packages@.len() - i,
        {
            let p = &packages[i];
            let topic_keys = match &p.topics {
                Some(ts) => {
                    let mut keys: Vec<String> = Vec::new();
                    let mut k: usize = 0;
                    while k < ts.len()
                        invariant
                            k <= ts@.len(),
                            keys@.len() == k,
                            forall|q: int| 0 <= q < k ==> #[trigger] keys@[q]@ == ts@[q].key@,
                        decreases ts@.len() - k,
                    {
                        keys.push(ts[k].key.clone());
                        k = k + 1;
                    }
                    proof {
                        assert(keys@.map(|i: int, s: String| s@) =~= ts@.map(
                            |i: int, t: CTANTopic| t.key@,
                        ));
                    }
                    keys
                },
                None => {
                    let keys: Vec<String> = Vec::new();
                    proof {
                        assert(keys@.map(|i: int, s: String| s@) =~= Seq::<Seq<char>>::empty());
                    }
                    keys
                },
            };
            search_index.push(
                SearchIndex {
                    name_lower: lowercase(p.name.as_str()),
                    id_lower: lowercase(p.id.as_str()),
                    caption_lower: Some(lowercase(p.caption.as_str())),
                    topic_keys,
                },
            );
            i = i + 1;
        }
        PackageDatabase { packages, search_index }
    }
}

impl PackageListItem {
    /// The listing row of one package: its identifying fields, nothing
    /// heavy.
    pub fn from_package(pkg: &CTANPackage) -> (r: Self)
        ensures
            r.id@ == pkg.id@,
            r.name@ == pkg.name@,
            r.caption@ == pkg.caption@,
            r.version@ == pkg.version@,
            match (r.home, pkg.home) {
                (Some(a), Some(b)) => a@ == b@,
                (None, None) => true,
                _ => false,
            },
            match (r.ctan, pkg.ctan) {
                (Some(a), Some(b)) => a@ == b@,
                (None, None) => true,
                _ => false,
            },
    {
        Self {
            id: pkg.id.clone(),
            name: pkg.name.clone(),
            caption: pkg.caption.clone(),
            version: pkg.version.clone(),
            home: match &pkg.home {
                Some(h) => Some(h.clone()),
                None => None,
            },
            ctan: match &pkg.ctan {
                Some(c) => Some(c.clone()),
                None => None,
            },
        }
    }
}

/// The search row matches the folded query text: an empty query matches
/// everything, otherwise the query must occur in the folded name, id or
/// caption.
pub open spec fn matches_query(e: SearchIndex, ql: Seq<char>) -> bool {
    ql.len() == 0 || contains_seq(e.name_lower@, ql) || contains_seq(e.id_lower@, ql) || (match e
        .caption_lower {
        Some(c) => contains_seq(c@, ql),
        None => false,
    })
}

/// The search row matches the topic filter: an empty filter matches
/// everything, otherwise one of the row's topic keys must equal it.
pub open spec fn matches_topic(e: SearchIndex, tk: Seq<char>) -> bool {
    tk.len() == 0 || exists|k: int|
        0 <= k < e.topic_keys@.len() && (#[trigger] e.topic_keys@[k])@ == tk
}

/// The row passes both filters.
pub open spec fn entry_matches(e: SearchIndex, ql: Seq<char>, tk: Seq<char>) -> bool {
    matches_query(e, ql) && matches_topic(e, tk)
}

/// The indices of the matching rows, in order.
pub open spec fn matched_of(idx: Seq<SearchIndex>, ql: Seq<char>, tk: Seq<char>) -> Seq<int>
    decreases idx.len(),
{
    if idx.len() == 0 {
        Seq::empty()
    } else {
        let rest = matched_of(idx.drop_last(), ql, tk);
        if entry_matches(idx.last(), ql, tk) {
            rest.push(idx.len() - 1)
        } else {
            rest
        }
    }
}

proof fn lemma_matched_snoc(idx: Seq<SearchIndex>, ql: Seq<char>, tk: Seq<char>, i: int)
    requires
        0 <= i < idx.len(),
    ensures
        matched_of(idx.take(i + 1), ql, tk) == if entry_matches(idx[i], ql, tk) {
            matched_of(idx.take(i), ql, tk).push(i)
        } else {
            matched_of(idx.take(i), ql, tk)
        },
{
    assert(idx.take(i + 1).drop_last() =~= idx.take(i));
    assert(idx.take(i + 1).last() == idx[i]);
}

fn entry_matches_exec(e: &SearchIndex, ql: &str, tk: &str) -> (r: bool)
    ensures
        r == entry_matches(*e, ql@, tk@),
{
    let q_ok = if ql.unicode_len() == 0 {
        true
    } else if crate::strutil::str_contains(e.name_lower.as_str(), ql) {
        true
    } else if crate::strutil::str_contains(e.id_lower.as_str(), ql) {
        true
    } else {
        match &e.caption_lower {
            Some(c) => crate::strutil::str_contains(c.as_str(), ql),
            None => false,
        }
    };
    if !q_ok {
        return false;
    }
    if tk.unicode_len() == 0 {
        return true;
    }
    let n = e.topic_keys.len();
    let mut k: usize = 0;
    while k < n
        invariant
            n == e.topic_keys@.len(),
            k <= n,
            matches_query(*e, ql@),
            tk@.len() > 0,
            forall|q: int| 0 <= q < k ==> (#[trigger] e.topic_keys@[q])@ != tk@,
        decreases n - k,
    {
        if crate::strutil::str_eq(e.topic_keys[k].as_str(), tk) {
            proof {
                assert((#[trigger] e.topic_keys@[k as int])@ == tk@);
            }
            return true;
        }
        k = k + 1;
    }
    false
}

/// One page of the catalogue, filtered: `total` counts every package whose
/// folded fields match the folded query and whose topics match the filter;
/// the rows are the matches from `offset` on, at most `limit` of them, in
/// catalogue order. The defaults stand in for absent parameters: no
/// filter, the first hundred rows.
pub fn get_packages(
    db: &PackageDatabase,
    query: Option<String>,
    topic: Option<String>,
    limit: Option<usize>,
    offset: Option<usize>,
) -> (r: PackageResponse)
    requires
        db.wf(),
    ensures
        ({
            let ql = match query {
                Some(q) => lower_of(q@),
                None => Seq::<char>::empty(),
            };
            let tk = match topic {
                Some(t) => t@,
                None => Seq::<char>::empty(),
            };
            let matched = matched_of(db.search_index@, ql, tk);
            let skip: int = match offset {
                Some(o) => o as int,
                None => 0,
            };
            let cap: int = match limit {
                Some(l) => l as int,
                None => 100,
            };
            &&& r.total == matched.len()
            &&& r.packages@.len() == (if matched.len() <= skip {
                0int
            } else if matched.len() - skip <= cap {
                matched.len() - skip
            } else {
                cap
            })
            &&& forall|j: int|
                0 <= j < r.packages@.len() ==> {
                    let p = db.packages@[matched[skip + j]];
                    (#[trigger] r.packages@[j]).id@ == p.id@ && r.packages@[j].name@ == p.name@
                        && r.packages@[j].caption@ == p.caption@ && r.packages@[j].version@
                        == p.version@
                }
        }),
{
    let ql: String = match &query {
        Some(q) => lowercase(q.as_str()),
        None => String::new(),
    };
    let tk: String = match &topic {
        Some(t) => t.clone(),
        None => String::new(),
    };
    let skip: usize = match offset {
        Some(o) => o,
        None => 0,
    };
    let cap: usize = match limit {
        Some(l) => l,
        None => 100,
    };
    let ghost gql = ql@;
    let ghost gtk = tk@;
    let n = db.search_index.len();
    let mut count: usize = 0;
    let mut out: Vec<PackageListItem> = Vec::new();
    let mut i: usize = 0;
    proof {
        assert(db.search_index@.take(0) =~= Seq::<SearchIndex>::empty());
    }
    while i < n
        invariant
            db.wf(),
            n == db.search_index@.len(),
            i <= n,
            gql == ql@,
            gtk == tk@,
            count == matched_of(db.search_index@.take(i as int), gql, gtk).len(),
            out@.len() == (if count <= skip {
                0int
            } else if count - skip <= cap {
                count - skip
            } else {
                cap as int
            }),
            forall|j: int|
                0 <= j < out@.len() ==> {
                    let p = db.packages@[matched_of(db.search_index@.take(i as int), gql, gtk)[
                        skip + j]];
                    (#[trigger] out@[j]).id@ == p.id@ && out@[j].name@ == p.name@
                        && out@[j].caption@ == p.caption@ && out@[j].version@ == p.version@
                },
        decreases n - i,
    {
        proof {
            lemma_matched_snoc(db.search_index@, gql, gtk, i as int);
            lemma_matched_prefix(db.search_index@, gql, gtk, i as int);
        }
        if entry_matches_exec(&db.search_index[i], ql.as_str(), tk.as_str()) {
            if count >= skip && out.len() < cap {
                out.push(PackageListItem::from_package(&db.packages[i]));
            }
            count = count + 1;
        }
        i = i + 1;
    }
    proof {
        assert(db.search_index@.take(n as int) =~= db.search_index@);
    }
    PackageResponse { total: count, packages: out }
}

/// A prefix never has more matches than rows, and growing it keeps every
/// earlier match in place.
proof fn lemma_matched_prefix(idx: Seq<SearchIndex>, ql: Seq<char>, tk: Seq<char>, i: int)
    requires
        0 <= i <= idx.len(),
    ensures
        matched_of(idx.take(i), ql, tk).len() <= i,
        forall|j: int|
            0 <= j < matched_of(idx.take(i), ql, tk).len() ==> 0 <= #[trigger] matched_of(
                idx.take(i),
                ql,
                tk,
            )[j] < i,
    decreases i,
{
    if i > 0 {
        lemma_matched_prefix(idx, ql, tk, i - 1);
        lemma_matched_snoc(idx, ql, tk, i - 1);
    } else {
        assert(idx.take(0) =~= Seq::<SearchIndex>::empty());
    }
}

/// Code-point lexicographic order on texts, the order UTF-8 byte
/// comparison gives.
pub open spec fn lex_le(a: Seq<char>, b: Seq<char>) -> bool
    decreases a.len(),
{
    if a.len() == 0 {
        true
    } else if b.len() == 0 {
        false
    } else if a[0] != b[0] {
        a[0] < b[0]
    } else {
        lex_le(a.drop_first(), b.drop_first())
    }
}

/// The order is total.
pub proof fn lemma_lex_total(a: Seq<char>, b: Seq<char>)
    ensures
        lex_le(a, b) || lex_le(b, a),
    decreases a.len(),
{
    if a.len() > 0 && b.len() > 0 && a[0] == b[0] {
        lemma_lex_total(a.drop_first(), b.drop_first());
    }
}

/// The order is transitive.
pub proof fn lemma_lex_trans(a: Seq<char>, b: Seq<char>, c: Seq<char>)
    requires
        lex_le(a, b),
        lex_le(b, c),
    ensures
        lex_le(a, c),
    decreases a.len(),
{
    if a.len() > 0 && b.len() > 0 && c.len() > 0 && a[0] == b[0] && b[0] == c[0] {
        lemma_lex_trans(a.drop_first(), b.drop_first(), c.drop_first());
    }
}

proof fn lemma_lex_common_prefix(a: Seq<char>, b: Seq<char>, i: int)
    requires
        0 <= i <= a.len(),
        i <= b.len(),
        forall|k: int| 0 <= k < i ==> a[k] == b[k],
    ensures
        lex_le(a, b) == lex_le(a.skip(i), b.skip(i)),
    decreases i,
{
    if i > 0 {
        assert(a[0] == b[0]);
        assert(a.drop_first() =~= a.skip(1));
        assert(b.drop_first() =~= b.skip(1));
        assert(forall|k: int| 0 <= k < i - 1 ==> #[trigger] a.skip(1)[k] == b.skip(1)[k]);
        lemma_lex_common_prefix(a.skip(1), b.skip(1), i - 1);
        assert(a.skip(1).skip(i - 1) =~= a.skip(i));
        assert(b.skip(1).skip(i - 1) =~= b.skip(i));
    } else {
        assert(a.skip(0) =~= a);
        assert(b.skip(0) =~= b);
    }
}

fn lex_le_exec(a: &str, b: &str) -> (r: bool)
    ensures
        r == lex_le(a@, b@),
{
    let alen = a.unicode_len();
    let blen = b.unicode_len();
    let mut i: usize = 0;
    while i < alen && i < blen
        invariant
            alen == a@.len(),
            blen == b@.len(),
            i <= alen,
            i <= blen,
            forall|k: int| 0 <= k < i ==> a@[k] == b@[k],
        decreases alen - i,
    {
        let ca = a.get_char(i);
        let cb = b.get_char(i);
        if ca != cb {
            proof {
                lemma_lex_common_prefix(a@, b@, i as int);
                assert(a@.skip(i as int)[0] == a@[i as int]);
                assert(b@.skip(i as int)[0] == b@[i as int]);
            }
            return ca < cb;
        }
        i = i + 1;
    }
    proof {
        lemma_lex_common_prefix(a@, b@, i as int);
        if i == alen {
            assert(a@.skip(i as int).len() == 0);
        } else {
            assert(b@.skip(i as int).len() == 0);
            assert(a@.skip(i as int).len() > 0);
        }
    }
    alen <= blen
}

/// The topic list is sorted by key.
pub open spec fn sorted_topics(ts: Seq<CTANTopic>) -> bool {
    forall|i: int, j: int|
        0 <= i < j < ts.len() ==> lex_le((#[trigger] ts[i]).key@, (#[trigger] ts[j]).key@)
}

/// No key appears twice.
pub open spec fn distinct_topic_keys(ts: Seq<CTANTopic>) -> bool {
    forall|i: int, j: int|
        0 <= i < j < ts.len() ==> (#[trigger] ts[i]).key@ != (#[trigger] ts[j]).key@
}

/// Some listed topic carries the key.
pub open spec fn has_key(ts: Seq<CTANTopic>, k: Seq<char>) -> bool {
    exists|i: int| 0 <= i < ts.len() && (#[trigger] ts[i]).key@ == k
}

/// The key of the `t`-th topic of the `p`-th package, where there is one.
pub open spec fn topic_key_at(ps: Seq<CTANPackage>, p: int, t: int) -> Option<Seq<char>> {
    if 0 <= p < ps.len() {
        match ps[p].topics {
            Some(ts) => if 0 <= t < ts@.len() {
                Some(ts@[t].key@)
            } else {
                None
            },
            None => None,
        }
    } else {
        None
    }
}

/// Some package files itself under the key.
pub open spec fn some_package_has_topic(ps: Seq<CTANPackage>, k: Seq<char>) -> bool {
    exists|p: int, t: int| #[trigger] topic_key_at(ps, p, t) == Some(k)
}

fn topics_have_key(out: &Vec<CTANTopic>, key: &str) -> (r: bool)
    ensures
        r == has_key(out@, key@),
{
    let n = out.len();
    let mut i: usize = 0;
    while i < n
        invariant
            n == out@.len(),
            i <= n,
            forall|k: int| 0 <= k < i ==> (#[trigger] out@[k]).key@ != key@,
        decreases n - i,
    {
        if crate::strutil::str_eq(out[i].key.as_str(), key) {
            proof {
                assert((#[trigger] out@[i as int]).key@ == key@);
            }
            return true;
        }
        i = i + 1;
    }
    false
}

fn insert_topic_sorted(out: &mut Vec<CTANTopic>, topic: CTANTopic)
    requires
        sorted_topics(old(out)@),
        distinct_topic_keys(old(out)@),
        !has_key(old(out)@, topic.key@),
    ensures
        sorted_topics(final(out)@),
        distinct_topic_keys(final(out)@),
        final(out)@.len() == old(out)@.len() + 1,
        has_key(final(out)@, topic.key@),
        forall|k: Seq<char>| has_key(old(out)@, k) ==> has_key(final(out)@, k),
        forall|i: int|
            0 <= i < final(out)@.len() ==> has_key(old(out)@, (#[trigger] final(out)@[i]).key@)
                || final(out)@[i].key@ == topic.key@,
{
    let ghost prev = out@;
    let n = out.len();
    let mut j: usize = 0;
    while j < n && lex_le_exec(out[j].key.as_str(), topic.key.as_str())
        invariant
            prev == out@,
            n == out@.len(),
            j <= n,
            forall|k: int| 0 <= k < j ==> lex_le((#[trigger] out@[k]).key@, topic.key@),
        decreases n - j,
    {
        j = j + 1;
    }
    proof {
        if (j as int) < prev.len() {
            lemma_lex_total(prev[j as int].key@, topic.key@);
            assert(lex_le(topic.key@, prev[j as int].key@));
        }
    }
    let ghost key = topic.key@;
    out.insert(j, topic);
    proof {
        let cur = out@;
        assert(cur == prev.insert(j as int, cur[j as int]));
        prev.insert_ensures(j as int, cur[j as int]);
        assert(cur[j as int].key@ == key);
        assert forall|x: int, y: int| 0 <= x < y < cur.len() implies lex_le(
            (#[trigger] cur[x]).key@,
            (#[trigger] cur[y]).key@,
        ) && cur[x].key@ != cur[y].key@ by {
            let px = if x < j as int {
                x
            } else {
                x - 1
            };
            let py = if y < j as int {
                y
            } else {
                y - 1
            };
            if x == j as int {
                // cur[x] is the new topic; y > j, so cur[y] == prev[y - 1],
                // at or after where the scan stopped.
                if (j as int) < py && py < prev.len() {
                    lemma_lex_trans(key, prev[j as int].key@, prev[py].key@);
                }
                assert(!has_key(prev, key));
                assert(prev[py].key@ != key);
            } else if y == j as int {
                assert(cur[x] == prev[px]);
                assert(lex_le(prev[px].key@, key));
                assert(prev[px].key@ != key);
            } else {
                assert(cur[x] == prev[px]);
                assert(cur[y] == prev[py]);
                assert(px < py);
            }
        }
        assert(has_key(cur, key)) by {
            assert((#[trigger] cur[j as int]).key@ == key);
        }
        assert forall|k: Seq<char>| has_key(prev, k) implies has_key(cur, k) by {
            let w = choose|w: int| 0 <= w < prev.len() && (#[trigger] prev[w]).key@ == k;
            if w < j as int {
                assert((#[trigger] cur[w]).key@ == k);
            } else {
                assert((#[trigger] cur[w + 1]).key@ == k);
            }
        }
        assert forall|i: int|
            0 <= i < cur.len() && cur[i].key@ != key implies has_key(
            prev,
            (#[trigger] cur[i]).key@,
        ) by {
            if i < j as int {
                assert((#[trigger] prev[i]).key@ == cur[i].key@);
            } else if i > j as int {
                assert((#[trigger] prev[i - 1]).key@ == cur[i].key@);
            }
        }
    }
}

/// Every distinct topic key of the catalogue, each under the details of
/// its first occurrence, sorted by key.
pub fn get_all_topics(db: &PackageDatabase) -> (r: Vec<CTANTopic>)
    ensures
        sorted_topics(r@),
        distinct_topic_keys(r@),
        forall|i: int|
            0 <= i < r@.len() ==> some_package_has_topic(db.packages@, (#[trigger] r@[i]).key@),
        forall|p: int, t: int|
            (#[trigger] topic_key_at(db.packages@, p, t)) is Some ==> has_key(
                r@,
                topic_key_at(db.packages@, p, t)->0,
            ),
{
    let mut out: Vec<CTANTopic> = Vec::new();
    let np = db.packages.len();
    let mut p: usize = 0;
    while p < np
        invariant
            np == db.packages@.len(),
            p <= np,
            sorted_topics(out@),
            distinct_topic_keys(out@),
            forall|i: int|
                0 <= i < out@.len() ==> some_package_has_topic(
                    db.packages@,
                    (#[trigger] out@[i]).key@,
                ),
            forall|q: int, t: int|
                q < p && (#[trigger] topic_key_at(db.packages@, q, t)) is Some ==> has_key(
                    out@,
                    topic_key_at(db.packages@, q, t)->0,
                ),
        decreases np - p,
    {
        match &db.packages[p].topics {
            Some(ts) => {
                let nt = ts.len();
                let mut t: usize = 0;
                while t < nt
                    invariant
                        np == db.packages@.len(),
                        p < np,
                        db.packages@[p as int].topics matches Some(tv) && tv == *ts,
                        nt == ts@.len(),
                        t <= nt,
                        sorted_topics(out@),
                        distinct_topic_keys(out@),
                        forall|i: int|
                            0 <= i < out@.len() ==> some_package_has_topic(
                                db.packages@,
                                (#[trigger] out@[i]).key@,
                            ),
                        forall|q: int, t2: int|
                            q < p && (#[trigger] topic_key_at(db.packages@, q, t2)) is Some
                                ==> has_key(out@, topic_key_at(db.packages@, q, t2)->0),
                        forall|t2: int|
                            t2 < t && (#[trigger] topic_key_at(db.packages@, p as int, t2))
                                is Some ==> has_key(
                                out@,
                                topic_key_at(db.packages@, p as int, t2)->0,
                            ),
                    decreases nt - t,
                {
                    let topic = &ts[t];
                    if !topics_have_key(&out, topic.key.as_str()) {
                        let fresh = CTANTopic {
                            details: topic.details.clone(),
                            key: topic.key.clone(),
                        };
                        proof {
                            assert(topic_key_at(db.packages@, p as int, t as int) == Some(
                                fresh.key@,
                            ));
                            assert(some_package_has_topic(db.packages@, fresh.key@));
                        }
                        insert_topic_sorted(&mut out, fresh);
                    }
                    t = t + 1;
                }
            },
            None => (),
        }
        p = p + 1;
    }
    out
}

/// Looks one package up by its id, compared case-folded, and hands back
/// its index in the catalogue.
pub fn get_package_by_id(db: &PackageDatabase, id: &str) -> (r: Option<usize>)
    requires
        db.wf(),
    ensures
        match r {
            Some(i) => i < db.packages@.len() && db.search_index@[i as int].id_lower@ == lower_of(
                id@,
            ),
            None => forall|i: int|
                0 <= i < db.search_index@.len() ==> (#[trigger] db.search_index@[i]).id_lower@
                    != lower_of(id@),
        },
{
    let idl = lowercase(id);
    let n = db.search_index.len();
    let mut i: usize = 0;
    while i < n
        invariant
            db.wf(),
            n == db.search_index@.len(),
            i <= n,
            idl@ == lower_of(id@),
            forall|k: int|
                0 <= k < i ==> (#[trigger] db.search_index@[k]).id_lower@ != lower_of(id@),
        decreases n - i,
    {
        if crate::strutil::str_eq(db.search_index[i].id_lower.as_str(), idl.as_str()) {
            return Some(i);
        }
        i = i + 1;
    }
    None
}

} // verus!
