use vstd::prelude::*;
use crate::codec::view_os;
use crate::connection::{DatabaseConnection, Param, Statement, StatementView, ParamView};
use crate::errors::VaultError;
use crate::store::{ConversationRecord, Vault};
use crate::text::str_eq;
use crate::textmatch::{kw_matches, kw_matches_exec, matched_count, rank_of,
    lemma_matched_count_bounds};

verus! {

/// How several query terms combine: all must occur, or any may.
#[derive(Debug, Clone, Copy, PartialEq, Eq)]
pub enum SearchMode {
    And,
    Or,
}

/// One keyword search: terms, their combination, and the post-filters.
#[derive(Debug, Clone)]
pub struct SearchQuery {
    pub keywords: Vec<String>,
    pub mode: SearchMode,
    pub project_filter: Option<String>,
    pub project_filters: Option<Vec<String>>,
    pub date_from: Option<i64>,
    pub date_to: Option<i64>,
    pub favorites_only: Option<bool>,
    pub limit: Option<usize>,
}

/// The mathematical value of a [`SearchQuery`].
pub struct SearchQueryView {
    pub keywords: Seq<Seq<char>>,
    pub mode: SearchMode,
    pub project_filter: Option<Seq<char>>,
    pub project_filters: Option<Seq<Seq<char>>>,
    pub date_from: Option<i64>,
    pub date_to: Option<i64>,
    pub favorites_only: Option<bool>,
    pub limit: Option<usize>,
}

/// The values of a list of strings.
pub open spec fn str_views(s: Seq<String>) -> Seq<Seq<char>> {
    s.map_values(|x: String| x@)
}

/// The value of an optional list of strings.
pub open spec fn view_ovs(o: Option<Vec<String>>) -> Option<Seq<Seq<char>>> {
    match o {
        None => None,
        Some(v) => Some(str_views(v@)),
    }
}

impl View for SearchQuery {
    type V = SearchQueryView;

    open spec fn view(&self) -> SearchQueryView {
        SearchQueryView {
            keywords: str_views(self.keywords@),
            mode: self.mode,
            project_filter: view_os(self.project_filter),
            project_filters: view_ovs(self.project_filters),
            date_from: self.date_from,
            date_to: self.date_to,
            favorites_only: self.favorites_only,
            limit: self.limit,
        }
    }
}

impl Default for SearchQuery {
    /// No terms, all terms required, no filters, at most a hundred results.
    fn default() -> (r: Self)
        ensures
            r@.keywords.len() == 0,
            r@.mode == SearchMode::And,
            r@.project_filter.is_none(),
            r@.project_filters.is_none(),
            r@.date_from.is_none(),
            r@.date_to.is_none(),
            r@.favorites_only.is_none(),
            r@.limit == Some(100usize),
    {
        let r = SearchQuery {
            keywords: Vec::new(),
            mode: SearchMode::And,
            project_filter: None,
            project_filters: None,
            date_from: None,
            date_to: None,
            favorites_only: None,
            limit: Some(100),
        };
        proof {
            assert(r@.keywords =~= Seq::<Seq<char>>::empty());
        }
        r
    }
}

/// One ranked hit: the record's fields, its relevance rank (higher is more
/// relevant), and its favorite flag.
#[derive(Debug, PartialEq)]
pub struct SearchResult {
    pub id: i64,
    pub uuid: String,
    pub session_id: String,
    pub message_content: Option<String>,
    pub message_role: Option<String>,
    pub project_path: String,
    pub timestamp: i64,
    pub rank: i64,
    pub is_favorite: bool,
}

/// The mathematical value of a [`SearchResult`].
pub struct SearchResultView {
    pub id: i64,
    pub uuid: Seq<char>,
    pub session_id: Seq<char>,
    pub message_content: Option<Seq<char>>,
    pub message_role: Option<Seq<char>>,
    pub project_path: Seq<char>,
    pub timestamp: i64,
    pub rank: i64,
    pub is_favorite: bool,
}

impl View for SearchResult {
    type V = SearchResultView;

    open spec fn view(&self) -> SearchResultView {
        SearchResultView {
            id: self.id,
            uuid: self.uuid@,
            session_id: self.session_id@,
            message_content: view_os(self.message_content),
            message_role: view_os(self.message_role),
            project_path: self.project_path@,
            timestamp: self.timestamp,
            rank: self.rank,
            is_favorite: self.is_favorite,
        }
    }
}

impl SearchResult {
    /// A copy of the hit.
    pub fn duplicate(&self) -> (r: Self)
        ensures
            r@ == self@,
    {
        SearchResult {
            id: self.id,
            uuid: self.uuid.clone(),
            session_id: self.session_id.clone(),
            message_content: crate::message::clone_opt_string(&self.message_content),
            message_role: crate::message::clone_opt_string(&self.message_role),
            project_path: self.project_path.clone(),
            timestamp: self.timestamp,
            rank: self.rank,
            is_favorite: self.is_favorite,
        }
    }
}

/// The values of a list of hits.
pub open spec fn resviews(s: Seq<SearchResult>) -> Seq<SearchResultView> {
    s.map_values(|r: SearchResult| r@)
}

// ---------------------------------------------------------------------------
// Matching and ranking.
// ---------------------------------------------------------------------------

/// Whether a piece of content satisfies the terms under the mode: all of
/// them present, or at least one.
pub open spec fn row_matches(
    content: Option<Seq<char>>,
    kws: Seq<Seq<char>>,
    mode: SearchMode,
) -> bool {
    match mode {
        SearchMode::And => forall|t: int|
            0 <= t < kws.len() ==> kw_matches(content, #[trigger] kws[t]),
        SearchMode::Or => exists|t: int|
            0 <= t < kws.len() && kw_matches(content, #[trigger] kws[t]),
    }
}

/// The hit a record yields for a list of terms.
pub open spec fn result_of_record(rec: ConversationRecord, kws: Seq<Seq<char>>)
    -> SearchResultView {
    SearchResultView {
        id: rec.id,
        uuid: rec.uuid@,
        session_id: rec.session_id@,
        message_content: view_os(rec.message_content),
        message_role: view_os(rec.message_role),
        project_path: rec.project_path@,
        timestamp: rec.timestamp@.millis,
        rank: rank_of(view_os(rec.message_content), kws) as i64,
        is_favorite: rec.is_favorite,
    }
}

/// The candidates: the hits of every record, in table order, whose content
/// satisfies the terms under the mode.
pub open spec fn matching_go(
    rows: Seq<ConversationRecord>,
    kws: Seq<Seq<char>>,
    mode: SearchMode,
    i: int,
) -> Seq<SearchResultView>
    decreases rows.len() - i when 0 <= i <= rows.len()
{
    if i >= rows.len() {
        Seq::empty()
    } else if row_matches(view_os(rows[i].message_content), kws, mode) {
        seq![result_of_record(rows[i], kws)] + matching_go(rows, kws, mode, i + 1)
    } else {
        matching_go(rows, kws, mode, i + 1)
    }
}

/// Whether a record's content satisfies the terms, and its rank: how many
/// terms it holds, saturated.
fn row_match_rank(content: &Option<String>, keywords: &Vec<String>, mode: &SearchMode) -> (r: (
    bool,
    i64,
))
    ensures
        r.0 == row_matches(view_os(*content), str_views(keywords@), *mode),
        r.1 as int == rank_of(view_os(*content), str_views(keywords@)),
{
    let ghost kws = str_views(keywords@);
    let mut all = true;
    let mut any = false;
    let mut cnt: i64 = 0;
    let mut t: usize = 0;
    proof {
        lemma_matched_count_bounds(view_os(*content), kws, 0);
    }
    while t < keywords.len()
        invariant
            t <= keywords@.len(),
            kws == str_views(keywords@),
            all == (forall|u: int| 0 <= u < t ==> kw_matches(view_os(*content), #[trigger] kws[u])),
            any == (exists|u: int| 0 <= u < t && kw_matches(view_os(*content), #[trigger] kws[u])),
            0 <= cnt,
            cnt as int == if matched_count(view_os(*content), kws, 0) - matched_count(
                view_os(*content),
                kws,
                t as int,
            ) > i64::MAX {
                i64::MAX as int
            } else {
                matched_count(view_os(*content), kws, 0) - matched_count(
                    view_os(*content),
                    kws,
                    t as int,
                )
            },
        decreases keywords@.len() - t,
    {
        proof {
            assert(kws[t as int] == keywords@[t as int]@);
            lemma_matched_count_bounds(view_os(*content), kws, t as int);
            lemma_matched_count_bounds(view_os(*content), kws, t + 1);
        }
        let hit = kw_matches_exec(content, keywords[t].as_str());
        all = all && hit;
        any = any || hit;
        if hit {
            if cnt < i64::MAX {
                cnt = cnt + 1;
            }
        }
        t = t + 1;
    }
    proof {
        assert(matched_count(view_os(*content), kws, keywords@.len() as int) == 0);
    }
    let matched = match mode {
        SearchMode::And => all,
        SearchMode::Or => any,
    };
    (matched, cnt)
}

fn result_of_record_exec(rec: &ConversationRecord, rank: i64) -> (r: SearchResult)
    ensures
        r@ == (SearchResultView {
            id: rec.id,
            uuid: rec.uuid@,
            session_id: rec.session_id@,
            message_content: view_os(rec.message_content),
            message_role: view_os(rec.message_role),
            project_path: rec.project_path@,
            timestamp: rec.timestamp@.millis,
            rank: rank,
            is_favorite: rec.is_favorite,
        }),
{
    SearchResult {
        id: rec.id,
        uuid: rec.uuid.clone(),
        session_id: rec.session_id.clone(),
        message_content: crate::message::clone_opt_string(&rec.message_content),
        message_role: crate::message::clone_opt_string(&rec.message_role),
        project_path: rec.project_path.clone(),
        timestamp: rec.timestamp.millis(),
        rank,
        is_favorite: rec.is_favorite,
    }
}

// ---------------------------------------------------------------------------
// Ranking order: a stable sort by descending rank.
// ---------------------------------------------------------------------------

/// Places a hit into a rank-descending sequence: before the first hit of
/// strictly smaller rank, and so after every hit of equal rank — insertion
/// order is kept among ties.
pub open spec fn insert_desc(x: SearchResultView, s: Seq<SearchResultView>) -> Seq<
    SearchResultView,
>
    decreases s.len(),
{
    if s.len() == 0 {
        seq![x]
    } else if x.rank > s[0].rank {
        seq![x] + s
    } else {
        seq![s[0]] + insert_desc(x, s.drop_first())
    }
}

/// The stable rank-descending order of a sequence of hits.
pub open spec fn sort_by_rank(s: Seq<SearchResultView>) -> Seq<SearchResultView>
    decreases s.len(),
{
    if s.len() == 0 {
        Seq::empty()
    } else {
        insert_desc(s.last(), sort_by_rank(s.drop_last()))
    }
}

proof fn lemma_insert_desc_at(s: Seq<SearchResultView>, x: SearchResultView, p: int)
    requires
        0 <= p <= s.len(),
        forall|t: int| 0 <= t < p ==> !(x.rank > (#[trigger] s[t]).rank),
        p < s.len() ==> x.rank > s[p].rank,
    ensures
        insert_desc(x, s) == s.subrange(0, p) + seq![x] + s.subrange(p, s.len() as int),
    decreases p,
{
    if p == 0 {
        if s.len() == 0 {
            assert(insert_desc(x, s) =~= s.subrange(0, 0) + seq![x] + s.subrange(0, 0));
        } else {
            assert(insert_desc(x, s) == seq![x] + s);
            assert(s.subrange(0, 0) + seq![x] + s.subrange(0, s.len() as int) =~= seq![x] + s);
        }
    } else {
        let rest = s.drop_first();
        assert(forall|t: int| 0 <= t < p - 1 ==> !(x.rank > (#[trigger] rest[t]).rank)) by {
            assert(forall|t: int| 0 <= t < p - 1 ==> rest[t] == s[t + 1]);
        }
        assert(p - 1 < rest.len() ==> x.rank > rest[p - 1].rank);
        lemma_insert_desc_at(rest, x, p - 1);
        assert(insert_desc(x, s) == seq![s[0]] + (rest.subrange(0, p - 1) + seq![x]
            + rest.subrange(p - 1, rest.len() as int)));
        assert(seq![s[0]] + (rest.subrange(0, p - 1) + seq![x] + rest.subrange(
            p - 1,
            rest.len() as int,
        )) =~= s.subrange(0, p) + seq![x] + s.subrange(p, s.len() as int));
    }
}

/// Sorts hits by descending rank; hits of equal rank keep their order.
fn sort_results(results: Vec<SearchResult>) -> (r: Vec<SearchResult>)
    ensures
        resviews(r@) == sort_by_rank(resviews(results@)),
{
    let mut acc: Vec<SearchResult> = Vec::new();
    let mut i: usize = 0;
    proof {
        assert(resviews(results@.subrange(0, 0)) =~= Seq::<SearchResultView>::empty());
        assert(resviews(acc@) =~= Seq::<SearchResultView>::empty());
    }
    while i < results.len()
        invariant
            i <= results@.len(),
            resviews(acc@) == sort_by_rank(resviews(results@.subrange(0, i as int))),
            acc@.len() == i,
        decreases results@.len() - i,
    {
        let x = results[i].duplicate();
        let mut p: usize = 0;
        while p < acc.len() && !(x.rank > acc[p].rank)
            invariant
                p <= acc@.len(),
                forall|t: int| 0 <= t < p ==> !(x.rank > (#[trigger] acc@[t]).rank),
                x@ == results@[i as int]@,
            decreases acc@.len() - p,
        {
            p = p + 1;
        }
        let ghost acc_old = acc@;
        let ghost xv = x@;
        acc.insert(p, x);
        proof {
            lemma_insert_desc_at(resviews(acc_old), xv, p as int);
            assert(forall|t: int|
                0 <= t < p ==> resviews(acc_old)[t] == (#[trigger] acc_old[t])@);
            assert(resviews(acc@) =~= resviews(acc_old).subrange(0, p as int) + seq![xv]
                + resviews(acc_old).subrange(p as int, acc_old.len() as int)) by {
                assert(forall|t: int|
                    0 <= t < acc@.len() ==> acc@[t] == (#[trigger] acc_old.insert(
                        p as int,
                        x,
                    ))[t]);
            }
            let prev = results@.subrange(0, i as int);
            let cur = results@.subrange(0, i + 1);
            assert(cur.drop_last() =~= prev);
            assert(cur.last() == results@[i as int]);
            assert(resviews(cur).drop_last() =~= resviews(prev));
            assert(resviews(cur).last() == xv);
            assert(resviews(cur).len() > 0);
            assert(sort_by_rank(resviews(cur)) == insert_desc(xv, sort_by_rank(
                resviews(cur).drop_last(),
            )));
            assert(resviews(acc@) =~= sort_by_rank(resviews(cur)));
        }
        i = i + 1;
    }
    proof {
        assert(results@.subrange(0, results@.len() as int) =~= results@);
    }
    acc
}

// ---------------------------------------------------------------------------
// The post-filters, each a pure retain in a fixed order.
// ---------------------------------------------------------------------------

/// The date lower bound: keep hits no older than the bound.
pub open spec fn keep_date_from(r: SearchResultView, b: Option<i64>) -> bool {
    match b {
        None => true,
        Some(t) => r.timestamp >= t,
    }
}

/// The date upper bound: keep hits no newer than the bound.
pub open spec fn keep_date_to(r: SearchResultView, b: Option<i64>) -> bool {
    match b {
        None => true,
        Some(t) => r.timestamp <= t,
    }
}

/// The project filter. A present list wins over the single scope; an empty
/// list restricts nothing at all.
pub open spec fn keep_project(
    r: SearchResultView,
    single: Option<Seq<char>>,
    multi: Option<Seq<Seq<char>>>,
) -> bool {
    match multi {
        Some(l) => l.len() == 0 || exists|i: int| 0 <= i < l.len() && #[trigger] l[i]
            == r.project_path,
        None => match single {
            Some(p) => r.project_path == p,
            None => true,
        },
    }
}

/// The favorites filter: only an explicit `true` restricts.
pub open spec fn keep_favorites(r: SearchResultView, f: Option<bool>) -> bool {
    match f {
        Some(true) => r.is_favorite,
        _ => true,
    }
}

/// Which hits a whole query keeps.
pub open spec fn keep_all(r: SearchResultView, q: SearchQueryView) -> bool {
    &&& keep_date_from(r, q.date_from)
    &&& keep_date_to(r, q.date_to)
    &&& keep_project(r, q.project_filter, q.project_filters)
    &&& keep_favorites(r, q.favorites_only)
}

/// The retained subsequence, order untouched.
pub open spec fn filter_go(s: Seq<SearchResultView>, q: SearchQueryView, i: int) -> Seq<
    SearchResultView,
>
    decreases s.len() - i when 0 <= i <= s.len()
{
    if i >= s.len() {
        Seq::empty()
    } else if keep_all(s[i], q) {
        seq![s[i]] + filter_go(s, q, i + 1)
    } else {
        filter_go(s, q, i + 1)
    }
}

/// Applies the post-filters, in their fixed order, to the ranked
/// candidates; the ranking order is preserved — a filter never re-sorts.
pub open spec fn apply_filters(s: Seq<SearchResultView>, q: SearchQueryView) -> Seq<
    SearchResultView,
> {
    filter_go(s, q, 0)
}

fn keep_project_exec(r: &SearchResult, single: &Option<String>, multi: &Option<Vec<String>>) -> (b:
    bool)
    ensures
        b == keep_project(r@, view_os(*single), view_ovs(*multi)),
{
    match multi {
        Some(l) => {
            proof {
                assert(*multi == Some(*l));
                assert(view_ovs(*multi) == Some(str_views(l@)));
            }
            if l.len() == 0 {
                true
            } else {
                let mut j: usize = 0;
                while j < l.len()
                    invariant
                        j <= l@.len(),
                        view_ovs(*multi) == Some(str_views(l@)),
                        forall|t: int| 0 <= t < j ==> (#[trigger] str_views(l@)[t])
                            != r@.project_path,
                    decreases l@.len() - j,
                {
                    proof {
                        assert(str_views(l@)[j as int] == l@[j as int]@);
                    }
                    if str_eq(l[j].as_str(), r.project_path.as_str()) {
                        proof {
                            let lv = view_ovs(*multi).unwrap();
                            assert(lv == str_views(l@));
                            assert(0 <= j < lv.len() && lv[j as int] == r@.project_path);
                            assert(exists|t: int|
                                0 <= t < lv.len() && #[trigger] lv[t] == r@.project_path);
                        }
                        return true;
                    }
                    j = j + 1;
                }
                proof {
                    assert(!keep_project(r@, view_os(*single), view_ovs(*multi))) by {
                        if exists|t: int|
                            0 <= t < str_views(l@).len() && #[trigger] str_views(l@)[t]
                                == r@.project_path {
                            let t = choose|t: int|
                                0 <= t < str_views(l@).len() && #[trigger] str_views(l@)[t]
                                    == r@.project_path;
                            assert(str_views(l@)[t] != r@.project_path);
                        }
                    }
                }
                false
            }
        },
        None => match single {
            Some(p) => {
                proof {
                    assert(view_os(*single) == Some(p@));
                }
                str_eq(r.project_path.as_str(), p.as_str())
            },
            None => true,
        },
    }
}

fn keep_all_exec(r: &SearchResult, query: &SearchQuery) -> (b: bool)
    ensures
        b == keep_all(r@, query@),
{
    let from_ok = match query.date_from {
        None => true,
        Some(t) => r.timestamp >= t,
    };
    let to_ok = match query.date_to {
        None => true,
        Some(t) => r.timestamp <= t,
    };
    let proj_ok = keep_project_exec(r, &query.project_filter, &query.project_filters);
    let fav_ok = match query.favorites_only {
        Some(true) => r.is_favorite,
        _ => true,
    };
    from_ok && to_ok && proj_ok && fav_ok
}

/// Applies the post-filters to the candidates, keeping their order.
fn apply_filters_exec(v: Vec<SearchResult>, query: &SearchQuery) -> (r: Vec<SearchResult>)
    ensures
        resviews(r@) == apply_filters(resviews(v@), query@),
{
    let ghost s = resviews(v@);
    let mut out: Vec<SearchResult> = Vec::new();
    let mut i: usize = 0;
    proof {
        assert(resviews(out@) =~= Seq::<SearchResultView>::empty());
        assert(filter_go(s, query@, 0) == resviews(out@) + filter_go(s, query@, 0)) by {
            assert(resviews(out@) + filter_go(s, query@, 0) =~= filter_go(s, query@, 0));
        }
    }
    while i < v.len()
        invariant
            i <= v@.len(),
            s == resviews(v@),
            filter_go(s, query@, 0) == resviews(out@) + filter_go(s, query@, i as int),
        decreases v@.len() - i,
    {
        proof {
            assert(s[i as int] == v@[i as int]@);
        }
        if keep_all_exec(&v[i], query) {
            let ghost out_old = out@;
            out.push(v[i].duplicate());
            proof {
                assert(resviews(out@) =~= resviews(out_old).push(s[i as int]));
                assert(filter_go(s, query@, i as int) == seq![s[i as int]] + filter_go(
                    s,
                    query@,
                    i + 1,
                ));
                assert(resviews(out_old) + (seq![s[i as int]] + filter_go(s, query@, i + 1)) =~=
                    resviews(out@) + filter_go(s, query@, i + 1));
            }
        }
        i = i + 1;
    }
    proof {
        assert(filter_go(s, query@, v@.len() as int) =~= Seq::<SearchResultView>::empty());
        assert(resviews(out@) + filter_go(s, query@, v@.len() as int) =~= resviews(out@));
    }
    out
}

// ---------------------------------------------------------------------------
// The whole search.
// ---------------------------------------------------------------------------

/// What a query returns against a table of records: the ranked matching
/// candidates, bounded by the limit, then post-filtered in fixed order.
pub open spec fn search_spec(rows: Seq<ConversationRecord>, q: SearchQueryView) -> Seq<
    SearchResultView,
> {
    if q.keywords.len() == 0 {
        Seq::empty()
    } else {
        let ranked = sort_by_rank(matching_go(rows, q.keywords, q.mode, 0));
        let lim = match q.limit {
            None => 100int,
            Some(l) => l as int,
        };
        let capped = if ranked.len() <= lim {
            ranked
        } else {
            ranked.take(lim)
        };
        apply_filters(capped, q)
    }
}

/// The match expression handed to the ranked lookup: terms joined so that
/// the lookup requires all of them, or joined with an explicit disjunction.
pub open spec fn match_expr(kws: Seq<Seq<char>>, mode: SearchMode) -> Seq<char> {
    if kws.len() == 0 {
        Seq::empty()
    } else {
        kws[0] + match_expr_tail(kws, join_sep(mode), 1)
    }
}

pub open spec fn join_sep(mode: SearchMode) -> Seq<char> {
    match mode {
        SearchMode::And => " "@,
        SearchMode::Or => " OR "@,
    }
}

pub open spec fn match_expr_tail(kws: Seq<Seq<char>>, sep: Seq<char>, i: int) -> Seq<char>
    decreases kws.len() - i when 0 <= i <= kws.len()
{
    if i >= kws.len() {
        Seq::empty()
    } else {
        sep + kws[i] + match_expr_tail(kws, sep, i + 1)
    }
}

// ---------------------------------------------------------------------------
// What holds of every answer.
// ---------------------------------------------------------------------------

proof fn lemma_cons_contains(a: SearchResultView, s: Seq<SearchResultView>, y: SearchResultView)
    ensures
        (seq![a] + s).contains(y) <==> (y == a || s.contains(y)),
{
    let c = seq![a] + s;
    if c.contains(y) {
        let k = choose|k: int| 0 <= k < c.len() && c[k] == y;
        if k == 0 {
            assert(y == a);
        } else {
            assert(s[k - 1] == y);
            assert(s.contains(y));
        }
    }
    if y == a {
        assert(c[0] == y);
        assert(c.contains(y));
    }
    if s.contains(y) {
        let k = choose|k: int| 0 <= k < s.len() && s[k] == y;
        assert(c[k + 1] == y);
        assert(c.contains(y));
    }
}

proof fn lemma_insert_desc_contains(x: SearchResultView, s: Seq<SearchResultView>, y: SearchResultView)
    ensures
        insert_desc(x, s).contains(y) <==> (y == x || s.contains(y)),
    decreases s.len(),
{
    if s.len() == 0 {
        assert(insert_desc(x, s) =~= seq![x] + s);
        lemma_cons_contains(x, s, y);
    } else if x.rank > s[0].rank {
        lemma_cons_contains(x, s, y);
    } else {
        let rest = s.drop_first();
        lemma_insert_desc_contains(x, rest, y);
        lemma_cons_contains(s[0], insert_desc(x, rest), y);
        lemma_cons_contains(s[0], rest, y);
        assert(seq![s[0]] + rest =~= s);
    }
}

proof fn lemma_sort_contains(s: Seq<SearchResultView>, y: SearchResultView)
    ensures
        sort_by_rank(s).contains(y) <==> s.contains(y),
    decreases s.len(),
{
    if s.len() > 0 {
        lemma_sort_contains(s.drop_last(), y);
        lemma_insert_desc_contains(s.last(), sort_by_rank(s.drop_last()), y);
        if s.contains(y) {
            let k = choose|k: int| 0 <= k < s.len() && s[k] == y;
            if k == s.len() - 1 {
                assert(y == s.last());
            } else {
                assert(s.drop_last()[k] == y);
                assert(s.drop_last().contains(y));
            }
        }
        if s.drop_last().contains(y) {
            let k = choose|k: int| 0 <= k < s.drop_last().len() && s.drop_last()[k] == y;
            assert(s[k] == y);
            assert(s.contains(y));
        }
        if y == s.last() {
            assert(s[s.len() - 1] == y);
            assert(s.contains(y));
        }
    }
}

/// Every candidate keeps its content, identity, and favorite flag from the
/// record it came of, and its content satisfies the terms under the mode.
proof fn lemma_matching_elems(
    rows: Seq<ConversationRecord>,
    kws: Seq<Seq<char>>,
    mode: SearchMode,
    i: int,
)
    requires
        0 <= i <= rows.len(),
    ensures
        forall|k: int|
            0 <= k < matching_go(rows, kws, mode, i).len() ==> {
                let e = #[trigger] matching_go(rows, kws, mode, i)[k];
                exists|t: int|
                    i <= t < rows.len() && e == result_of_record(#[trigger] rows[t], kws)
                        && row_matches(view_os(rows[t].message_content), kws, mode)
            },
    decreases rows.len() - i,
{
    if i < rows.len() {
        lemma_matching_elems(rows, kws, mode, i + 1);
        let cur = matching_go(rows, kws, mode, i);
        let nxt = matching_go(rows, kws, mode, i + 1);
        let head_matches = row_matches(view_os(rows[i].message_content), kws, mode);
        assert forall|k: int| 0 <= k < cur.len() implies {
            let e = #[trigger] cur[k];
            exists|t: int|
                i <= t < rows.len() && e == result_of_record(#[trigger] rows[t], kws)
                    && row_matches(view_os(rows[t].message_content), kws, mode)
        } by {
            if head_matches && k == 0 {
                assert(cur[0] == result_of_record(rows[i], kws));
                assert(i <= i < rows.len() && cur[0] == result_of_record(rows[i], kws)
                    && row_matches(view_os(rows[i].message_content), kws, mode));
            } else {
                let kk = if head_matches {
                    k - 1
                } else {
                    k
                };
                assert(cur[k] == nxt[kk]);
                let e2 = nxt[kk];
                let t = choose|t: int|
                    i + 1 <= t < rows.len() && e2 == result_of_record(#[trigger] rows[t], kws)
                        && row_matches(view_os(rows[t].message_content), kws, mode);
                assert(i <= t < rows.len() && cur[k] == result_of_record(rows[t], kws)
                    && row_matches(view_os(rows[t].message_content), kws, mode));
            }
        }
    }
}

/// Every retained hit was among the candidates and satisfies every filter
/// of the query.
proof fn lemma_filter_elems(s: Seq<SearchResultView>, q: SearchQueryView, i: int)
    requires
        0 <= i <= s.len(),
    ensures
        forall|k: int|
            0 <= k < filter_go(s, q, i).len() ==> {
                let e = #[trigger] filter_go(s, q, i)[k];
                keep_all(e, q) && s.contains(e)
            },
    decreases s.len() - i,
{
    if i < s.len() {
        lemma_filter_elems(s, q, i + 1);
        let cur = filter_go(s, q, i);
        if keep_all(s[i], q) {
            assert forall|k: int| 0 <= k < cur.len() implies {
                let e = #[trigger] cur[k];
                keep_all(e, q) && s.contains(e)
            } by {
                if k == 0 {
                    assert(cur[0] == s[i]);
                    assert(s.contains(s[i]));
                } else {
                    assert(cur[k] == filter_go(s, q, i + 1)[k - 1]);
                }
            }
        }
    }
}

/// Each answered hit came of a stored record whose content satisfies the
/// terms under the query's mode: with all terms required, every term
/// occurs in it; with any term accepted, at least one does.
pub proof fn lemma_search_results_match(rows: Seq<ConversationRecord>, q: SearchQueryView, k: int)
    requires
        0 <= k < search_spec(rows, q).len(),
    ensures
        ({
            let e = search_spec(rows, q)[k];
            &&& row_matches(e.message_content, q.keywords, q.mode)
            &&& (q.mode == SearchMode::And ==> forall|t: int|
                0 <= t < q.keywords.len() ==> kw_matches(e.message_content, #[trigger] q.keywords[t]))
            &&& (q.mode == SearchMode::Or ==> exists|t: int|
                0 <= t < q.keywords.len() && kw_matches(e.message_content, #[trigger] q.keywords[t]))
        }),
{
    let e = search_spec(rows, q)[k];
    let matching = matching_go(rows, q.keywords, q.mode, 0);
    let ranked = sort_by_rank(matching);
    let lim = match q.limit {
        None => 100int,
        Some(l) => l as int,
    };
    let capped = if ranked.len() <= lim {
        ranked
    } else {
        ranked.take(lim)
    };
    lemma_filter_elems(capped, q, 0);
    assert(capped.contains(e));
    let c = choose|c: int| 0 <= c < capped.len() && capped[c] == e;
    assert(ranked[c] == e);
    assert(ranked.contains(e));
    lemma_sort_contains(matching, e);
    assert(matching.contains(e));
    let m = choose|m: int| 0 <= m < matching.len() && matching[m] == e;
    lemma_matching_elems(rows, q.keywords, q.mode, 0);
    let t = choose|t: int|
        0 <= t < rows.len() && e == result_of_record(#[trigger] rows[t], q.keywords)
            && row_matches(view_os(rows[t].message_content), q.keywords, q.mode);
    assert(e.message_content == view_os(rows[t].message_content));
}

/// Every answered hit satisfies every filter: its timestamp lies on or
/// after the lower bound and on or before the upper one, its project is
/// among the allowed ones — a present list winning over the single scope —
/// and, where only favorites were asked for, it is a favorite.
pub proof fn lemma_search_results_filtered(rows: Seq<ConversationRecord>, q: SearchQueryView, k: int)
    requires
        0 <= k < search_spec(rows, q).len(),
    ensures
        ({
            let e = search_spec(rows, q)[k];
            &&& keep_all(e, q)
            &&& (match q.date_from {
                Some(b) => e.timestamp >= b,
                None => true,
            })
            &&& (match q.date_to {
                Some(b) => e.timestamp <= b,
                None => true,
            })
            &&& (match q.project_filters {
                Some(l) => l.len() == 0 || exists|i: int|
                    0 <= i < l.len() && #[trigger] l[i] == e.project_path,
                None => match q.project_filter {
                    Some(p) => e.project_path == p,
                    None => true,
                },
            })
            &&& (q.favorites_only == Some(true) ==> e.is_favorite)
        }),
{
    let matching = matching_go(rows, q.keywords, q.mode, 0);
    let ranked = sort_by_rank(matching);
    let lim = match q.limit {
        None => 100int,
        Some(l) => l as int,
    };
    let capped = if ranked.len() <= lim {
        ranked
    } else {
        ranked.take(lim)
    };
    lemma_filter_elems(capped, q, 0);
}

proof fn lemma_filter_congruent(s: Seq<SearchResultView>, q1: SearchQueryView, q2: SearchQueryView, i: int)
    requires
        0 <= i <= s.len(),
        forall|e: SearchResultView| keep_all(e, q1) == keep_all(e, q2),
    ensures
        filter_go(s, q1, i) == filter_go(s, q2, i),
    decreases s.len() - i,
{
    if i < s.len() {
        lemma_filter_congruent(s, q1, q2, i + 1);
    }
}

/// An empty project list restricts nothing: a query whose allow-list is
/// present but empty answers exactly as the query with no list at all,
/// other things equal.
pub proof fn lemma_empty_project_list(rows: Seq<ConversationRecord>, q1: SearchQueryView, q2: SearchQueryView)
    requires
        q1 == (SearchQueryView { project_filters: Some(Seq::empty()), ..q2 }),
        q2.project_filters.is_none(),
        q2.project_filter.is_none(),
    ensures
        search_spec(rows, q1) == search_spec(rows, q2),
{
    assert forall|e: SearchResultView| keep_all(e, q1) == keep_all(e, q2) by {
        assert(keep_project(e, q1.project_filter, q1.project_filters));
        assert(keep_project(e, q2.project_filter, q2.project_filters));
    }
    if q1.keywords.len() > 0 {
        let ranked = sort_by_rank(matching_go(rows, q1.keywords, q1.mode, 0));
        let lim = match q1.limit {
            None => 100int,
            Some(l) => l as int,
        };
        let capped = if ranked.len() <= lim {
            ranked
        } else {
            ranked.take(lim)
        };
        lemma_filter_congruent(capped, q1, q2, 0);
    }
}

proof fn lemma_insert_desc_len(x: SearchResultView, s: Seq<SearchResultView>)
    ensures
        insert_desc(x, s).len() == s.len() + 1,
    decreases s.len(),
{
    if s.len() != 0 && !(x.rank > s[0].rank) {
        lemma_insert_desc_len(x, s.drop_first());
    }
}

proof fn lemma_sort_len(s: Seq<SearchResultView>)
    ensures
        sort_by_rank(s).len() == s.len(),
    decreases s.len(),
{
    if s.len() != 0 {
        lemma_sort_len(s.drop_last());
        lemma_insert_desc_len(s.last(), sort_by_rank(s.drop_last()));
    }
}

/// Every matching record's hit is among the candidates.
proof fn lemma_matching_complete(
    rows: Seq<ConversationRecord>,
    kws: Seq<Seq<char>>,
    mode: SearchMode,
    i: int,
    t: int,
)
    requires
        0 <= i <= t < rows.len(),
        row_matches(view_os(rows[t].message_content), kws, mode),
    ensures
        matching_go(rows, kws, mode, i).contains(result_of_record(rows[t], kws)),
    decreases t - i,
{
    let e = result_of_record(rows[t], kws);
    let cur = matching_go(rows, kws, mode, i);
    if i == t {
        assert(cur[0] == e);
        assert(cur.contains(e));
    } else {
        lemma_matching_complete(rows, kws, mode, i + 1, t);
        let rest = matching_go(rows, kws, mode, i + 1);
        let w = choose|w: int| 0 <= w < rest.len() && rest[w] == e;
        if row_matches(view_os(rows[i].message_content), kws, mode) {
            assert(cur[w + 1] == e);
        } else {
            assert(cur[w] == e);
        }
        assert(cur.contains(e));
    }
}

/// Every kept hit is among the answers.
proof fn lemma_filter_complete(s: Seq<SearchResultView>, q: SearchQueryView, i: int, t: int)
    requires
        0 <= i <= t < s.len(),
        keep_all(s[t], q),
    ensures
        filter_go(s, q, i).contains(s[t]),
    decreases t - i,
{
    let cur = filter_go(s, q, i);
    if i == t {
        assert(cur[0] == s[t]);
        assert(cur.contains(s[t]));
    } else {
        lemma_filter_complete(s, q, i + 1, t);
        let rest = filter_go(s, q, i + 1);
        let w = choose|w: int| 0 <= w < rest.len() && rest[w] == s[t];
        if keep_all(s[i], q) {
            assert(cur[w + 1] == s[t]);
        } else {
            assert(cur[w] == s[t]);
        }
        assert(cur.contains(s[t]));
    }
}

/// A marked record appears: where a stored favorite's content satisfies
/// the terms, the query asks only for favorites, sets no date or project
/// filter, and the candidates fit under the limit, the answer holds a hit
/// carrying that record's identity and its raised flag.
pub proof fn lemma_favorite_present(rows: Seq<ConversationRecord>, q: SearchQueryView, t: int)
    requires
        q.favorites_only == Some(true),
        q.date_from.is_none(),
        q.date_to.is_none(),
        q.project_filter.is_none(),
        q.project_filters.is_none(),
        q.keywords.len() > 0,
        0 <= t < rows.len(),
        rows[t].is_favorite,
        row_matches(view_os(rows[t].message_content), q.keywords, q.mode),
        matching_go(rows, q.keywords, q.mode, 0).len() <= (match q.limit {
            None => 100int,
            Some(l) => l as int,
        }),
    ensures
        exists|k: int|
            0 <= k < search_spec(rows, q).len() && (#[trigger] search_spec(rows, q)[k]).id
                == rows[t].id && search_spec(rows, q)[k].is_favorite,
{
    let e = result_of_record(rows[t], q.keywords);
    let matching = matching_go(rows, q.keywords, q.mode, 0);
    let ranked = sort_by_rank(matching);
    lemma_matching_complete(rows, q.keywords, q.mode, 0, t);
    lemma_sort_len(matching);
    lemma_sort_contains(matching, e);
    assert(ranked.contains(e));
    let m = choose|m: int| 0 <= m < ranked.len() && ranked[m] == e;
    assert(keep_all(e, q));
    lemma_filter_complete(ranked, q, 0, m);
    let answers = filter_go(ranked, q, 0);
    assert(search_spec(rows, q) == answers);
    let k = choose|k: int| 0 <= k < answers.len() && answers[k] == e;
    assert(search_spec(rows, q)[k].id == rows[t].id && search_spec(rows, q)[k].is_favorite);
}

/// A record that is nowhere a favorite never answers a favorites-only
/// query: clearing a record's flag removes it from those answers.
pub proof fn lemma_unfavorited_absent(rows: Seq<ConversationRecord>, q: SearchQueryView, id: i64)
    requires
        q.favorites_only == Some(true),
        forall|t: int| 0 <= t < rows.len() && (#[trigger] rows[t]).id == id ==> !rows[t].is_favorite,
    ensures
        forall|k: int|
            0 <= k < search_spec(rows, q).len() ==> (#[trigger] search_spec(rows, q)[k]).id != id,
{
    let matching = matching_go(rows, q.keywords, q.mode, 0);
    let ranked = sort_by_rank(matching);
    let lim = match q.limit {
        None => 100int,
        Some(l) => l as int,
    };
    let capped = if ranked.len() <= lim {
        ranked
    } else {
        ranked.take(lim)
    };
    if q.keywords.len() > 0 {
        assert forall|k: int|
            0 <= k < search_spec(rows, q).len() implies (#[trigger] search_spec(rows, q)[k]).id
            != id by {
            let e = search_spec(rows, q)[k];
            lemma_filter_elems(capped, q, 0);
            assert(keep_all(e, q));
            assert(e.is_favorite);
            assert(capped.contains(e));
            let c = choose|c: int| 0 <= c < capped.len() && capped[c] == e;
            assert(ranked[c] == e);
            assert(ranked.contains(e));
            lemma_sort_contains(matching, e);
            lemma_matching_elems(rows, q.keywords, q.mode, 0);
            let m = choose|m: int| 0 <= m < matching.len() && matching[m] == e;
            let t = choose|t: int|
                0 <= t < rows.len() && e == result_of_record(#[trigger] rows[t], q.keywords)
                    && row_matches(view_os(rows[t].message_content), q.keywords, q.mode);
            if rows[t].id == id {
                assert(!rows[t].is_favorite);
                assert(!e.is_favorite);
            }
        }
    }
}

/// The query one bare term stands for: that term required, the default
/// bounds, no filters.
pub open spec fn simple_query(kw: Seq<char>) -> SearchQueryView {
    terms_query(seq![kw], SearchMode::And)
}

/// The query a list of terms stands for under a mode, with the default
/// bounds and no filters.
pub open spec fn terms_query(kws: Seq<Seq<char>>, mode: SearchMode) -> SearchQueryView {
    SearchQueryView {
        keywords: kws,
        mode,
        project_filter: None,
        project_filters: None,
        date_from: None,
        date_to: None,
        favorites_only: None,
        limit: Some(100usize),
    }
}

/// The statement that marks a record as favorite.
pub fn mark_favorite_sql_text() -> (r: &'static str)
    ensures
        r@ == mark_favorite_sql(),
{
    "UPDATE conversations SET is_favorite = TRUE WHERE id = ?"
}

pub open spec fn mark_favorite_sql() -> Seq<char> {
    "UPDATE conversations SET is_favorite = TRUE WHERE id = ?"@
}

/// The statement that clears a record's favorite flag.
pub fn unmark_favorite_sql_text() -> (r: &'static str)
    ensures
        r@ == unmark_favorite_sql(),
{
    "UPDATE conversations SET is_favorite = FALSE WHERE id = ?"
}

pub open spec fn unmark_favorite_sql() -> Seq<char> {
    "UPDATE conversations SET is_favorite = FALSE WHERE id = ?"@
}

/// The favorite-toggle statement for one record.
pub open spec fn favorite_stmt_view(id: i64, fav: bool) -> StatementView {
    StatementView {
        sql: if fav {
            mark_favorite_sql()
        } else {
            unmark_favorite_sql()
        },
        params: seq![ParamView::Int(id)],
    }
}

/// The search engine: builds the match expression, performs the ranked
/// lookup against the store, applies the post-filters, and toggles
/// favorites.
pub struct SearchEngine<C> {
    pub connection: C,
}

impl<C: DatabaseConnection> SearchEngine<C> {
    pub fn new(connection: C) -> (r: Self)
        ensures
            r.connection == connection,
    {
        SearchEngine { connection }
    }

    /// The match expression for the given terms and mode.
    pub fn build_fts_query(&self, keywords: &Vec<String>, mode: &SearchMode) -> (r: String)
        ensures
            r@ == match_expr(str_views(keywords@), *mode),
    {
        let ghost kws = str_views(keywords@);
        if keywords.len() == 0 {
            let r = String::new();
            return r;
        }
        let sep: &'static str = match mode {
            SearchMode::And => " ",
            SearchMode::Or => " OR ",
        };
        let mut out = String::from_str(keywords[0].as_str());
        proof {
            assert(kws[0] == keywords@[0]@);
        }
        let mut i: usize = 1;
        while i < keywords.len()
            invariant
                1 <= i <= keywords@.len(),
                kws == str_views(keywords@),
                kws.len() == keywords@.len(),
                sep@ == join_sep(*mode),
                match_expr(kws, *mode) == out@ + match_expr_tail(kws, sep@, i as int),
            decreases keywords@.len() - i,
        {
            proof {
                assert(kws[i as int] == keywords@[i as int]@);
            }
            out.append(sep);
            out.append(keywords[i].as_str());
            proof {
                assert(out@ + match_expr_tail(kws, sep@, i + 1) =~= match_expr(kws, *mode));
            }
            i = i + 1;
        }
        proof {
            assert(match_expr_tail(kws, sep@, kws.len() as int) =~= Seq::<char>::empty());
            assert(out@ + match_expr_tail(kws, sep@, kws.len() as int) =~= out@);
        }
        out
    }

    /// Answers a query against the store: refused when the store is
    /// unreachable; an empty term list yields an empty answer at once;
    /// otherwise the ranked, bounded, post-filtered candidates, in ranking
    /// order.
    pub fn search(&self, vault: &Vault, query: &SearchQuery) -> (r: Result<
        Vec<SearchResult>,
        VaultError,
    >)
        requires
            vault.wf(),
        ensures
            !self.connection.connected() ==> r == Err::<Vec<SearchResult>, VaultError>(
                VaultError::NotConnected,
            ),
            self.connection.connected() ==> r.is_ok() && resviews(r.unwrap()@) == search_spec(
                vault.rows@,
                query@,
            ),
    {
        if !self.connection.is_connected() {
            return Err(VaultError::NotConnected);
        }
        if query.keywords.len() == 0 {
            let out: Vec<SearchResult> = Vec::new();
            proof {
                assert(resviews(out@) =~= Seq::<SearchResultView>::empty());
            }
            return Ok(out);
        }
        let ghost kws = str_views(query.keywords@);
        let ghost mode = query@.mode;
        let mut candidates: Vec<SearchResult> = Vec::new();
        let mut i: usize = 0;
        proof {
            assert(resviews(candidates@) =~= Seq::<SearchResultView>::empty());
            assert(resviews(candidates@) + matching_go(vault.rows@, kws, mode, 0) =~= matching_go(
                vault.rows@,
                kws,
                mode,
                0,
            ));
        }
        while i < vault.rows.len()
            invariant
                i <= vault.rows@.len(),
                kws == str_views(query.keywords@),
                mode == query@.mode,
                matching_go(vault.rows@, kws, mode, 0) == resviews(candidates@) + matching_go(
                    vault.rows@,
                    kws,
                    mode,
                    i as int,
                ),
            decreases vault.rows@.len() - i,
        {
            let rec = &vault.rows[i];
            let (matched, rank) = row_match_rank(&rec.message_content, &query.keywords, &query.mode);
            if matched {
                let ghost cand_old = candidates@;
                let hit = result_of_record_exec(rec, rank);
                proof {
                    assert(hit@ == result_of_record(vault.rows@[i as int], kws));
                }
                candidates.push(hit);
                proof {
                    assert(resviews(candidates@) =~= resviews(cand_old).push(
                        result_of_record(vault.rows@[i as int], kws),
                    ));
                    assert(matching_go(vault.rows@, kws, mode, i as int) == seq![
                        result_of_record(vault.rows@[i as int], kws),
                    ] + matching_go(vault.rows@, kws, mode, i + 1));
                    assert(resviews(cand_old) + (seq![
                        result_of_record(vault.rows@[i as int], kws),
                    ] + matching_go(vault.rows@, kws, mode, i + 1)) =~= resviews(candidates@)
                        + matching_go(vault.rows@, kws, mode, i + 1));
                }
            }
            i = i + 1;
        }
        proof {
            assert(matching_go(vault.rows@, kws, mode, vault.rows@.len() as int) =~= Seq::<
                SearchResultView,
            >::empty());
            assert(resviews(candidates@) + matching_go(vault.rows@, kws, mode, vault.rows@.len() as int)
                =~= resviews(candidates@));
        }
        let mut ranked = sort_results(candidates);
        let lim: usize = match query.limit {
            None => 100,
            Some(l) => l,
        };
        if ranked.len() > lim {
            ranked.truncate(lim);
        }
        proof {
            let sorted = sort_by_rank(matching_go(vault.rows@, kws, mode, 0));
            if sorted.len() > lim {
                assert(resviews(ranked@) =~= sorted.take(lim as int)) by {
                    assert(forall|t: int|
                        0 <= t < ranked@.len() ==> (#[trigger] resviews(ranked@)[t]) == sorted[t]);
                }
            }
        }
        let out = apply_filters_exec(ranked, query);
        Ok(out)
    }

    /// A search for one term, all terms required.
    pub fn search_simple(&self, vault: &Vault, keyword: &str) -> (r: Result<
        Vec<SearchResult>,
        VaultError,
    >)
        requires
            vault.wf(),
        ensures
            !self.connection.connected() ==> r == Err::<Vec<SearchResult>, VaultError>(
                VaultError::NotConnected,
            ),
            self.connection.connected() ==> r.is_ok() && resviews(r.unwrap()@) == search_spec(
                vault.rows@,
                simple_query(keyword@),
            ),
    {
        let mut query = SearchQuery::default();
        let mut kws: Vec<String> = Vec::new();
        kws.push(String::from_str(keyword));
        query.keywords = kws;
        proof {
            assert(str_views(query.keywords@) =~= seq![keyword@]);
            assert(query@ == simple_query(keyword@));
        }
        self.search(vault, &query)
    }

    /// A search requiring every given term.
    pub fn search_multiple_and(&self, vault: &Vault, keywords: Vec<String>) -> (r: Result<
        Vec<SearchResult>,
        VaultError,
    >)
        requires
            vault.wf(),
        ensures
            !self.connection.connected() ==> r == Err::<Vec<SearchResult>, VaultError>(
                VaultError::NotConnected,
            ),
            self.connection.connected() ==> r.is_ok() && resviews(r.unwrap()@) == search_spec(
                vault.rows@,
                terms_query(str_views(keywords@), SearchMode::And),
            ),
    {
        let mut query = SearchQuery::default();
        query.keywords = keywords;
        query.mode = SearchMode::And;
        proof {
            assert(query@ == terms_query(str_views(query.keywords@), SearchMode::And));
        }
        self.search(vault, &query)
    }

    /// A search accepting any of the given terms.
    pub fn search_multiple_or(&self, vault: &Vault, keywords: Vec<String>) -> (r: Result<
        Vec<SearchResult>,
        VaultError,
    >)
        requires
            vault.wf(),
        ensures
            !self.connection.connected() ==> r == Err::<Vec<SearchResult>, VaultError>(
                VaultError::NotConnected,
            ),
            self.connection.connected() ==> r.is_ok() && resviews(r.unwrap()@) == search_spec(
                vault.rows@,
                terms_query(str_views(keywords@), SearchMode::Or),
            ),
    {
        let mut query = SearchQuery::default();
        query.keywords = keywords;
        query.mode = SearchMode::Or;
        proof {
            assert(query@ == terms_query(str_views(query.keywords@), SearchMode::Or));
        }
        self.search(vault, &query)
    }

    /// Orders any list of hits by descending rank, keeping the order of
    /// ties; usable apart from `search`.
    pub fn rank_results(&self, results: Vec<SearchResult>) -> (r: Vec<SearchResult>)
        ensures
            resviews(r@) == sort_by_rank(resviews(results@)),
    {
        sort_results(results)
    }

    /// Reads a relative-date phrase against the current moment. Whatever
    /// the clock says: the three rejected phrase classes are rejected, with
    /// their own errors and no others; a recognized phrase either resolves
    /// or falls out of the representable range; and success comes only of a
    /// recognized phrase. What a recognized phrase resolves to, for a given
    /// moment, is pinned by `dates::resolve_relative_date`, which this
    /// function applies to the clock's value.
    pub fn parse_relative_date(&self, relative_date: &str) -> (r: Result<i64, VaultError>)
        ensures
            ({
                let p = crate::dates::phrase_of(relative_date@);
                &&& ((p == crate::dates::RelativePhrase::Unrecognized) <==> r.is_err()
                    && match r.unwrap_err() {
                    VaultError::CannotParseDate { input } => input@ == relative_date@,
                    _ => false,
                })
                &&& ((p == crate::dates::RelativePhrase::NonPositive) <==> r == Err::<
                    i64,
                    VaultError,
                >(VaultError::InvalidTimeValue))
                &&& ((p == crate::dates::RelativePhrase::BadNumber) <==> r == Err::<
                    i64,
                    VaultError,
                >(VaultError::InvalidNumber))
                &&& (crate::dates::phrase_recognized(p) ==> r.is_ok() || r == Err::<
                    i64,
                    VaultError,
                >(VaultError::DateOutOfRange))
                &&& (r.is_ok() ==> crate::dates::phrase_recognized(p))
            }),
    {
        let now = crate::clock::now_millis();
        crate::dates::resolve_relative_date(now, relative_date)
    }

    /// Sets the favorite flag of one record; refused when the store is
    /// unreachable; marking an already-marked record succeeds and changes
    /// nothing.
    pub fn mark_as_favorite(&mut self, vault: &mut Vault, conversation_id: i64) -> (r: Result<
        (),
        VaultError,
    >)
        requires
            old(vault).wf(),
        ensures
            final(vault).wf(),
            final(self).connection.connected() == old(self).connection.connected(),
            !old(self).connection.connected() ==> r == Err::<(), VaultError>(
                VaultError::NotConnected,
            ) && *final(vault) == *old(vault),
            old(self).connection.connected() && r.is_ok() ==> {
                &&& final(self).connection.log() == old(self).connection.log().push(
                    favorite_stmt_view(conversation_id, true),
                )
                &&& old(vault).has_id(conversation_id) ==> final(vault).rows@ == old(
                    vault,
                ).rows@.update(
                    old(vault).id_idx(conversation_id),
                    ConversationRecord {
                        is_favorite: true,
                        ..old(vault).rows@[old(vault).id_idx(conversation_id)]
                    },
                )
                &&& !old(vault).has_id(conversation_id) ==> final(vault).rows@ == old(
                    vault,
                ).rows@
            },
            r.is_err() ==> *final(vault) == *old(vault),
    {
        self.set_favorite_flag(vault, conversation_id, true)
    }

    /// Clears the favorite flag of one record; refused when the store is
    /// unreachable.
    pub fn unmark_as_favorite(&mut self, vault: &mut Vault, conversation_id: i64) -> (r: Result<
        (),
        VaultError,
    >)
        requires
            old(vault).wf(),
        ensures
            final(vault).wf(),
            final(self).connection.connected() == old(self).connection.connected(),
            !old(self).connection.connected() ==> r == Err::<(), VaultError>(
                VaultError::NotConnected,
            ) && *final(vault) == *old(vault),
            old(self).connection.connected() && r.is_ok() ==> {
                &&& final(self).connection.log() == old(self).connection.log().push(
                    favorite_stmt_view(conversation_id, false),
                )
                &&& old(vault).has_id(conversation_id) ==> final(vault).rows@ == old(
                    vault,
                ).rows@.update(
                    old(vault).id_idx(conversation_id),
                    ConversationRecord {
                        is_favorite: false,
                        ..old(vault).rows@[old(vault).id_idx(conversation_id)]
                    },
                )
                &&& !old(vault).has_id(conversation_id) ==> final(vault).rows@ == old(
                    vault,
                ).rows@
            },
            r.is_err() ==> *final(vault) == *old(vault),
    {
        self.set_favorite_flag(vault, conversation_id, false)
    }

    fn set_favorite_flag(&mut self, vault: &mut Vault, conversation_id: i64, fav: bool) -> (r:
        Result<(), VaultError>)
        requires
            old(vault).wf(),
        ensures
            final(vault).wf(),
            final(self).connection.connected() == old(self).connection.connected(),
            !old(self).connection.connected() ==> r == Err::<(), VaultError>(
                VaultError::NotConnected,
            ) && *final(vault) == *old(vault),
            old(self).connection.connected() && r.is_ok() ==> {
                &&& final(self).connection.log() == old(self).connection.log().push(
                    favorite_stmt_view(conversation_id, fav),
                )
                &&& old(vault).has_id(conversation_id) ==> final(vault).rows@ == old(
                    vault,
                ).rows@.update(
                    old(vault).id_idx(conversation_id),
                    ConversationRecord {
                        is_favorite: fav,
                        ..old(vault).rows@[old(vault).id_idx(conversation_id)]
                    },
                )
                &&& !old(vault).has_id(conversation_id) ==> final(vault).rows@ == old(
                    vault,
                ).rows@
            },
            r.is_err() ==> *final(vault) == *old(vault),
    {
        if !self.connection.is_connected() {
            return Err(VaultError::NotConnected);
        }
        let sql = if fav {
            mark_favorite_sql_text()
        } else {
            unmark_favorite_sql_text()
        };
        let mut params: Vec<Param> = Vec::new();
        params.push(Param::Int(conversation_id));
        let stmt = Statement { sql: String::from_str(sql), params };
        proof {
            assert(stmt@.params =~= seq![ParamView::Int(conversation_id)]);
        }
        match self.connection.execute(&stmt) {
            Err(e) => Err(e),
            Ok(()) => {
                vault.set_favorite(conversation_id, fav);
                Ok(())
            },
        }
    }
}

} // verus!
