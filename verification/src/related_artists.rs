//! Artists related to an artist, scored from the local library: ten points
//! per song the two share, five per genre of the other's songs that the
//! artist's songs have too, and, between artists who never share a song,
//! two per album of the other's songs that the artist's songs are on too.
use vstd::prelude::*;
use crate::models::{Artist, ArtistV, Duplicate, Song};
use crate::text::{str_eq, views};

verus! {

/// How many related artists are given at most.
pub const RELATED_ARTIST_LIMIT: usize = 6;

/// Points per song both artists are credited on.
pub const COLLABORATION_SCORE: u128 = 10;

/// Points per genre both artists' songs have.
pub const SHARED_GENRE_SCORE: u128 = 5;

/// Points per album both artists' songs are on.
pub const SHARED_ALBUM_SCORE: u128 = 2;

/// `s` credits the artist named `name`.
pub open spec fn credits(s: Song, name: Seq<char>) -> bool {
    s.artists matches Some(a) && views(a@).contains(name)
}

/// The genres of the songs crediting `name`, in order, repeats kept.
pub open spec fn genres_of(songs: Seq<Song>, name: Seq<char>) -> Seq<Seq<char>>
    decreases songs.len(),
{
    if songs.len() == 0 {
        Seq::empty()
    } else {
        let rest = genres_of(songs.drop_last(), name);
        let s = songs.last();
        if credits(s, name) {
            match s.genres {
                Some(g) => rest + views(g@),
                None => rest,
            }
        } else {
            rest
        }
    }
}

/// The albums of the songs crediting `name`, in order, repeats kept.
pub open spec fn albums_of(songs: Seq<Song>, name: Seq<char>) -> Seq<Seq<char>>
    decreases songs.len(),
{
    if songs.len() == 0 {
        Seq::empty()
    } else {
        let rest = albums_of(songs.drop_last(), name);
        let s = songs.last();
        if credits(s, name) {
            match s.album {
                Some(a) => rest.push(a@),
                None => rest,
            }
        } else {
            rest
        }
    }
}

/// The number of songs crediting both `a` and `b`.
pub open spec fn collaborations(songs: Seq<Song>, a: Seq<char>, b: Seq<char>) -> int
    decreases songs.len(),
{
    if songs.len() == 0 {
        0
    } else {
        collaborations(songs.drop_last(), a, b) + if credits(songs.last(), a) && credits(
            songs.last(),
            b,
        ) {
            1int
        } else {
            0int
        }
    }
}

/// The number of distinct texts of `x` that `y` holds.
pub open spec fn distinct_shared(x: Seq<Seq<char>>, y: Seq<Seq<char>>) -> int
    decreases x.len(),
{
    if x.len() == 0 {
        0
    } else {
        distinct_shared(x.drop_last(), y) + if y.contains(x.last()) && !x.drop_last().contains(
            x.last(),
        ) {
            1int
        } else {
            0int
        }
    }
}

/// How related the artist named `other` is to the artist named `cur`.
pub open spec fn relation_score(songs: Seq<Song>, cur: Seq<char>, other: Seq<char>) -> int {
    let c = collaborations(songs, cur, other);
    10 * c + 5 * distinct_shared(genres_of(songs, other), genres_of(songs, cur)) + if c == 0 {
        2 * distinct_shared(albums_of(songs, other), albums_of(songs, cur))
    } else {
        0int
    }
}

fn contains_text(v: &Vec<String>, upto: usize, t: &str) -> (r: bool)
    requires
        upto <= v@.len(),
    ensures
        r == views(v@).take(upto as int).contains(t@),
{
    let mut i: usize = 0;
    while i < upto
        invariant
            i <= upto,
            upto <= v@.len(),
            !views(v@).take(i as int).contains(t@),
        decreases upto - i,
    {
        if str_eq(v[i].as_str(), t) {
            assert(views(v@).take(upto as int)[i as int] == t@);
            return true;
        }
        assert(views(v@).take(i + 1) =~= views(v@).take(i as int).push(v@[i as int]@));
        i = i + 1;
    }
    false
}

fn credits_name(s: &Song, name: &str) -> (r: bool)
    ensures
        r == credits(*s, name@),
{
    match &s.artists {
        Some(a) => {
            let r = contains_text(a, a.len(), name);
            assert(views(a@).take(a@.len() as int) =~= views(a@));
            r
        },
        None => false,
    }
}

fn genres_and_albums(songs: &[Song], name: &str) -> (r: (Vec<String>, Vec<String>))
    ensures
        views(r.0@) == genres_of(songs@, name@),
        views(r.1@) == albums_of(songs@, name@),
{
    let mut genres: Vec<String> = Vec::new();
    let mut albums: Vec<String> = Vec::new();
    let mut i: usize = 0;
    while i < songs.len()
        invariant
            i <= songs@.len(),
            views(genres@) == genres_of(songs@.take(i as int), name@),
            views(albums@) == albums_of(songs@.take(i as int), name@),
        decreases songs@.len() - i,
    {
        let s = &songs[i];
        let ghost t = songs@.take(i + 1);
        assert(t.drop_last() =~= songs@.take(i as int));
        assert(t.last() == *s);
        if credits_name(s, name) {
            match &s.genres {
                Some(g) => {
                    let ghost prev = views(genres@);
                    let mut k: usize = 0;
                    while k < g.len()
                        invariant
                            k <= g@.len(),
                            views(genres@) == prev + views(g@).take(k as int),
                        decreases g@.len() - k,
                    {
                        let ghost before = views(genres@);
                        genres.push(g[k].clone());
                        assert(views(genres@) =~= before.push(g@[k as int]@));
                        assert(views(g@).take(k + 1) =~= views(g@).take(k as int).push(g@[k as int]@));
                        assert(views(genres@) =~= prev + views(g@).take(k + 1));
                        k = k + 1;
                    }
                    assert(views(g@).take(k as int) =~= views(g@));
                },
                None => {},
            }
            match &s.album {
                Some(a) => {
                    let ghost prev = views(albums@);
                    albums.push(a.clone());
                    assert(views(albums@) =~= prev.push(a@));
                },
                None => {},
            }
        }
        i = i + 1;
    }
    assert(songs@.take(i as int) =~= songs@);
    (genres, albums)
}

fn count_shared(x: &Vec<String>, y: &Vec<String>) -> (r: u128)
    ensures
        r == distinct_shared(views(x@), views(y@)),
        r <= x@.len(),
        r <= usize::MAX,
{
    let mut r: u128 = 0;
    let mut i: usize = 0;
    while i < x.len()
        invariant
            i <= x@.len(),
            r == distinct_shared(views(x@).take(i as int), views(y@)),
            r <= i,
        decreases x@.len() - i,
    {
        let ghost t = views(x@).take(i + 1);
        assert(t.drop_last() =~= views(x@).take(i as int));
        assert(t.last() == x@[i as int]@);
        let in_y = contains_text(y, y.len(), x[i].as_str());
        let seen = contains_text(x, i, x[i].as_str());
        assert(views(y@).take(y@.len() as int) =~= views(y@));
        if in_y && !seen {
            r = r + 1;
        }
        i = i + 1;
    }
    assert(views(x@).take(i as int) =~= views(x@));
    r
}

fn count_collaborations(songs: &[Song], a: &str, b: &str) -> (r: u128)
    ensures
        r == collaborations(songs@, a@, b@),
        r <= songs@.len(),
        r <= usize::MAX,
{
    let mut r: u128 = 0;
    let mut i: usize = 0;
    while i < songs.len()
        invariant
            i <= songs@.len(),
            r == collaborations(songs@.take(i as int), a@, b@),
            r <= i,
        decreases songs@.len() - i,
    {
        let ghost t = songs@.take(i + 1);
        assert(t.drop_last() =~= songs@.take(i as int));
        assert(t.last() == songs@[i as int]);
        if credits_name(&songs[i], a) && credits_name(&songs[i], b) {
            r = r + 1;
        }
        i = i + 1;
    }
    assert(songs@.take(i as int) =~= songs@);
    r
}

/// The score of the artist named `other` against the artist named `cur`
/// whose genres and albums are `cur_genres` and `cur_albums`.
fn score_against(
    songs: &[Song],
    cur: &str,
    cur_genres: &Vec<String>,
    cur_albums: &Vec<String>,
    other: &str,
) -> (r: u128)
    requires
        views(cur_genres@) == genres_of(songs@, cur@),
        views(cur_albums@) == albums_of(songs@, cur@),
    ensures
        r == relation_score(songs@, cur@, other@),
{
    let c = count_collaborations(songs, cur, other);
    let (genres, albums) = genres_and_albums(songs, other);
    let g = count_shared(&genres, cur_genres);
    let mut score: u128 = COLLABORATION_SCORE * c + SHARED_GENRE_SCORE * g;
    if c == 0 {
        let a = count_shared(&albums, cur_albums);
        score = score + SHARED_ALBUM_SCORE * a;
    }
    score
}


/// The index of the first artist with id `id`.
pub open spec fn first_with_id(arts: Seq<Artist>, id: Seq<char>) -> Option<int>
    decreases arts.len(),
{
    if arts.len() == 0 {
        None
    } else {
        match first_with_id(arts.drop_last(), id) {
            Some(j) => Some(j),
            None => if arts.last().id@ == id {
                Some(arts.len() - 1)
            } else {
                None
            },
        }
    }
}

/// The score the ranking keeps for the id `id` against the artist with id
/// `cur_id` and name `cur_name`: that of the last artist with id `id` (the
/// artist `cur_id` itself left out) whose score is positive; zero when there
/// is none.
pub open spec fn kept_score(
    arts: Seq<Artist>,
    songs: Seq<Song>,
    cur_id: Seq<char>,
    cur_name: Seq<char>,
    id: Seq<char>,
) -> int
    decreases arts.len(),
{
    if arts.len() == 0 {
        0
    } else {
        let a = arts.last();
        let sc = relation_score(songs, cur_name, a.name@);
        if a.id@ == id && id != cur_id && sc > 0 {
            sc
        } else {
            kept_score(arts.drop_last(), songs, cur_id, cur_name, id)
        }
    }
}

/// The ids of the artists.
pub open spec fn artist_ids(r: Seq<Artist>) -> Seq<Seq<char>> {
    r.map_values(|a: Artist| a.id@)
}

/// `r` ranks the artists related to the artist `cur_id` named `cur_name`:
/// at most `RELATED_ARTIST_LIMIT` of them, each the first artist with its
/// id, each id once and with a positive score, greatest score first; an id
/// with a positive score is left out only when the list is full and its
/// score is no greater than the last one's.
pub open spec fn related_ranking(
    r: Seq<Artist>,
    arts: Seq<Artist>,
    songs: Seq<Song>,
    cur_id: Seq<char>,
    cur_name: Seq<char>,
) -> bool {
    &&& r.len() <= RELATED_ARTIST_LIMIT
    &&& forall|i: int|
        0 <= i < r.len() ==> kept_score(arts, songs, cur_id, cur_name, (#[trigger] r[i]).id@) > 0
            && (first_with_id(arts, r[i].id@) matches Some(j) && r[i]@ == arts[j]@)
    &&& forall|i: int, k: int|
        0 <= i < k < r.len() ==> (#[trigger] r[i]).id@ != (#[trigger] r[k]).id@ && kept_score(
            arts,
            songs,
            cur_id,
            cur_name,
            r[i].id@,
        ) >= kept_score(arts, songs, cur_id, cur_name, r[k].id@)
    &&& forall|id: Seq<char>|
        #[trigger] kept_score(arts, songs, cur_id, cur_name, id) > 0 && !artist_ids(r).contains(id)
            ==> r.len() == RELATED_ARTIST_LIMIT && kept_score(arts, songs, cur_id, cur_name, id)
            <= kept_score(arts, songs, cur_id, cur_name, r[r.len() - 1].id@)
}

proof fn lemma_first_with_id(arts: Seq<Artist>, id: Seq<char>, j: int)
    requires
        0 <= j < arts.len(),
        arts[j].id@ == id,
    ensures
        first_with_id(arts, id) matches Some(f) && 0 <= f <= j && arts[f].id@ == id
            && forall|k: int| 0 <= k < f ==> arts[k].id@ != id,
    decreases arts.len(),
{
    if j < arts.len() - 1 {
        assert(arts.drop_last()[j] == arts[j]);
        lemma_first_with_id(arts.drop_last(), id, j);
        let f = first_with_id(arts.drop_last(), id)->0;
        assert(arts.drop_last()[f] == arts[f]);
        assert forall|k: int| 0 <= k < f implies arts[k].id@ != id by {
            assert(arts.drop_last()[k] == arts[k]);
        }
    } else {
        lemma_first_with_id_found(arts, id);
    }
}

proof fn lemma_first_with_id_found(arts: Seq<Artist>, id: Seq<char>)
    requires
        first_with_id(arts, id) is Some,
    ensures
        first_with_id(arts, id) matches Some(f) && 0 <= f < arts.len() && arts[f].id@ == id
            && forall|k: int| 0 <= k < f ==> arts[k].id@ != id,
    decreases arts.len(),
{
    if arts.len() > 0 {
        match first_with_id(arts.drop_last(), id) {
            Some(f) => {
                lemma_first_with_id_found(arts.drop_last(), id);
                assert(arts.drop_last()[f] == arts[f]);
                assert forall|k: int| 0 <= k < f implies arts[k].id@ != id by {
                    assert(arts.drop_last()[k] == arts[k]);
                }
            },
            None => {
                lemma_first_with_id_none(arts.drop_last(), id);
                assert forall|k: int| 0 <= k < arts.len() - 1 implies arts[k].id@ != id by {
                    assert(arts.drop_last()[k] == arts[k]);
                }
            },
        }
    }
}

proof fn lemma_first_with_id_none(arts: Seq<Artist>, id: Seq<char>)
    requires
        first_with_id(arts, id) is None,
    ensures
        forall|k: int| 0 <= k < arts.len() ==> arts[k].id@ != id,
    decreases arts.len(),
{
    if arts.len() > 0 {
        lemma_first_with_id_none(arts.drop_last(), id);
        assert forall|k: int| 0 <= k < arts.len() implies arts[k].id@ != id by {
            if k < arts.len() - 1 {
                assert(arts.drop_last()[k] == arts[k]);
            }
        }
    }
}

proof fn lemma_kept_has_artist(
    arts: Seq<Artist>,
    songs: Seq<Song>,
    cur_id: Seq<char>,
    cur_name: Seq<char>,
    id: Seq<char>,
)
    requires
        kept_score(arts, songs, cur_id, cur_name, id) > 0,
    ensures
        first_with_id(arts, id) is Some,
    decreases arts.len(),
{
    let a = arts.last();
    if a.id@ == id && id != cur_id && relation_score(songs, cur_name, a.name@) > 0 {
        lemma_first_with_id(arts, id, arts.len() - 1);
    } else {
        lemma_kept_has_artist(arts.drop_last(), songs, cur_id, cur_name, id);
        let f = first_with_id(arts.drop_last(), id)->0;
        lemma_first_with_id_found(arts.drop_last(), id);
        lemma_first_with_id(arts, id, f);
    }
}

fn position_of(v: &Vec<String>, t: &str) -> (r: Option<usize>)
    ensures
        match r {
            Some(p) => p < v@.len() && v@[p as int]@ == t@,
            None => !views(v@).contains(t@),
        },
{
    let mut i: usize = 0;
    while i < v.len()
        invariant
            i <= v@.len(),
            forall|k: int| 0 <= k < i ==> v@[k]@ != t@,
        decreases v@.len() - i,
    {
        if str_eq(v[i].as_str(), t) {
            return Some(i);
        }
        i = i + 1;
    }
    proof {
        if views(v@).contains(t@) {
            let k = choose|k: int| 0 <= k < views(v@).len() && views(v@)[k] == t@;
            assert(v@[k]@ == t@);
        }
    }
    None
}

fn holds_index(v: &Vec<usize>, x: usize) -> (r: bool)
    ensures
        r == v@.contains(x),
{
    let mut i: usize = 0;
    while i < v.len()
        invariant
            i <= v@.len(),
            forall|k: int| 0 <= k < i ==> v@[k] != x,
        decreases v@.len() - i,
    {
        if v[i] == x {
            assert(v@[i as int] == x);
            return true;
        }
        i = i + 1;
    }
    false
}

/// The artists related to the artist with id `artist_id` (the first artist
/// with that id), ranked by `relation_score` as `related_ranking` states;
/// `None` when no artist has that id.
#[verifier::spinoff_prover]
#[verifier::rlimit(40)]
pub fn related_artists(artist_id: &str, artists: &[Artist], songs: &[Song]) -> (r: Option<Vec<Artist>>)
    ensures
        r is None <==> first_with_id(artists@, artist_id@) is None,
        r matches Some(v) ==> first_with_id(artists@, artist_id@) matches Some(c) && related_ranking(
            v@,
            artists@,
            songs@,
            artist_id@,
            artists@[c].name@,
        ),
{
    let ghost arts = artists@;
    let ghost sv = songs@;
    // The artist itself.
    let mut c: usize = 0;
    while c < artists.len()
        invariant
            c <= arts.len(),
            arts == artists@,
            first_with_id(arts.take(c as int), artist_id@) is None,
        ensures
            c <= arts.len(),
            first_with_id(arts.take(c as int), artist_id@) is None,
            c < arts.len() ==> arts[c as int].id@ == artist_id@,
        decreases arts.len() - c,
    {
        if str_eq(artists[c].id.as_str(), artist_id) {
            break;
        }
        assert(arts.take(c + 1).drop_last() =~= arts.take(c as int));
        c = c + 1;
    }
    if c == artists.len() {
        assert(arts.take(c as int) =~= arts);
        return None;
    }
    proof {
        assert(arts.take(c + 1).drop_last() =~= arts.take(c as int));
        assert(first_with_id(arts.take(c + 1), artist_id@) == Some(c as int));
        lemma_first_with_id(arts, artist_id@, c as int);
        lemma_first_with_id_found(arts.take(c + 1), artist_id@);
        let f = first_with_id(arts, artist_id@)->0;
        if f < c {
            assert(arts.take(c as int)[f] == arts[f]);
            lemma_first_with_id(arts.take(c as int), artist_id@, f);
        }
    }
    let cur = &artists[c];
    let ghost cname = cur.name@;
    let (cur_genres, cur_albums) = genres_and_albums(songs, cur.name.as_str());

    // The positive scores, each id once with the score of its last artist.
    let mut ids: Vec<String> = Vec::new();
    let mut scores: Vec<u128> = Vec::new();
    let mut j: usize = 0;
    while j < artists.len()
        invariant
            j <= arts.len(),
            arts == artists@,
            sv == songs@,
            c < arts.len(),
            cname == artists@[c as int].name@,
            cur.name@ == cname,
            views(cur_genres@) == genres_of(sv, cname),
            views(cur_albums@) == albums_of(sv, cname),
            ids@.len() == scores@.len(),
            views(ids@).no_duplicates(),
            forall|k: int|
                0 <= k < ids@.len() ==> scores@[k] == kept_score(
                    arts.take(j as int),
                    sv,
                    artist_id@,
                    cname,
                    (#[trigger] ids@[k])@,
                ) && scores@[k] > 0,
            forall|id: Seq<char>|
                #[trigger] kept_score(arts.take(j as int), sv, artist_id@, cname, id) > 0
                    ==> views(ids@).contains(id),
        decreases arts.len() - j,
    {
        let a = &artists[j];
        let ghost t = arts.take(j + 1);
        assert(t.drop_last() =~= arts.take(j as int));
        assert(t.last() == *a);
        let ghost prev_ids = ids@;
        let ghost prev_scores = scores@;
        let ghost sc0 = relation_score(sv, cname, a.name@);
        let ghost hit = a.id@ != artist_id@ && sc0 > 0;
        proof {
            assert forall|id: Seq<char>| #![trigger kept_score(t, sv, artist_id@, cname, id)]
                !(hit && id == a.id@) implies kept_score(t, sv, artist_id@, cname, id) == kept_score(
                    arts.take(j as int), sv, artist_id@, cname, id) by {}
        }
        if !str_eq(a.id.as_str(), artist_id) {
            let sc = score_against(songs, cur.name.as_str(), &cur_genres, &cur_albums, a.name.as_str());
            if sc > 0 {
                match position_of(&ids, a.id.as_str()) {
                    Some(p) => {
                        scores.set(p, sc);
                        proof {
                            assert forall|k: int| 0 <= k < ids@.len() && k != p implies (#[trigger] ids@[k])@ != a.id@ by {
                                assert(views(ids@)[k] == ids@[k]@);
                                assert(views(ids@)[p as int] == ids@[p as int]@);
                            }
                            assert(views(ids@)[p as int] == a.id@);
                            assert(sc == sc0);
                            assert(kept_score(t, sv, artist_id@, cname, a.id@) == sc0);
                            assert forall|k: int| 0 <= k < ids@.len() implies scores@[k] == kept_score(
                                t, sv, artist_id@, cname, (#[trigger] ids@[k])@) && scores@[k] > 0 by {
                                if k != p {
                                    assert(scores@[k] == prev_scores[k]);
                                    assert(ids@[k]@ != a.id@);
                                    assert(kept_score(t, sv, artist_id@, cname, ids@[k]@) == kept_score(
                                        arts.take(j as int), sv, artist_id@, cname, ids@[k]@));
                                } else {
                                    assert(ids@[k]@ == a.id@);
                                }
                            }
                        }
                    },
                    None => {
                        let ghost prev = views(ids@);
                        ids.push(a.id.clone());
                        scores.push(sc);
                        assert(views(ids@) =~= prev.push(a.id@));
                        assert(views(ids@)[ids@.len() - 1] == a.id@);
                        proof {
                            assert forall|k: int| 0 <= k < ids@.len() implies scores@[k] == kept_score(
                                t, sv, artist_id@, cname, (#[trigger] ids@[k])@) && scores@[k] > 0 by {
                                if k < prev_ids.len() {
                                    assert(ids@[k] == prev_ids[k]);
                                    assert(scores@[k] == prev_scores[k]);
                                    assert(prev[k] == prev_ids[k]@);
                                }
                            }
                        }
                    },
                }
            }
        }
        proof {
            if !hit {
                assert(ids@ == prev_ids && scores@ == prev_scores);
            }
            assert forall|id: Seq<char>| #[trigger] kept_score(t, sv, artist_id@, cname, id) > 0 implies views(ids@).contains(id) by {
                if !(hit && id == a.id@) {
                    assert(kept_score(arts.take(j as int), sv, artist_id@, cname, id) > 0);
                    assert(views(prev_ids).contains(id));
                    let q = choose|q: int| 0 <= q < views(prev_ids).len() && views(prev_ids)[q] == id;
                    assert(views(ids@)[q] == id);
                }
            }
        }
        j = j + 1;
    }
    assert(arts.take(j as int) =~= arts);

    // Pick the greatest remaining score, up to the limit.
    let ghost n = ids@.len();
    let mut chosen: Vec<usize> = Vec::new();
    while chosen.len() < RELATED_ARTIST_LIMIT
        invariant
            ids@.len() == scores@.len(),
            n == ids@.len(),
            chosen@.len() <= RELATED_ARTIST_LIMIT,
            forall|i: int| 0 <= i < chosen@.len() ==> (#[trigger] chosen@[i]) < n,
            forall|i: int, k: int|
                0 <= i < k < chosen@.len() ==> #[trigger] chosen@[i] != #[trigger] chosen@[k]
                    && scores@[chosen@[i] as int] >= scores@[chosen@[k] as int],
            forall|k: int|
                0 <= k < n && !chosen@.contains(k as usize) && chosen@.len() > 0
                    ==> #[trigger] scores@[k] <= scores@[chosen@[chosen@.len() - 1] as int],
        ensures
            chosen@.len() == RELATED_ARTIST_LIMIT || forall|k: usize| k < n ==> #[trigger] chosen@.contains(k),
        decreases RELATED_ARTIST_LIMIT - chosen@.len(),
    {
        let mut best: usize = ids.len();
        let mut k: usize = 0;
        while k < ids.len()
            invariant
                ids@.len() == scores@.len(),
                k <= ids@.len(),
                best == ids@.len() || (best < k && !chosen@.contains(best)),
                forall|m: usize|
                    m < k && !(#[trigger] chosen@.contains(m)) ==> best < ids@.len()
                        && scores@[m as int] <= scores@[best as int],
            decreases ids@.len() - k,
        {
            let ghost old_best = best;
            if !holds_index(&chosen, k) {
                if best == ids.len() || scores[k] > scores[best] {
                    best = k;
                }
            }
            assert forall|m: usize|
                m < k + 1 && !(#[trigger] chosen@.contains(m)) implies best < ids@.len()
                    && scores@[m as int] <= scores@[best as int] by {
                if m < k {
                    assert(old_best < ids@.len() && scores@[m as int] <= scores@[old_best as int]);
                }
            }
            k = k + 1;
        }
        if best == ids.len() {
            assert forall|q: usize| q < n implies #[trigger] chosen@.contains(q) by {
                if !chosen@.contains(q) {
                    assert(best < ids@.len());
                }
            }
            break;
        }
        let ghost prev = chosen@;
        chosen.push(best);
        proof {
            assert forall|i: int, k2: int|
                0 <= i < k2 < chosen@.len() implies #[trigger] chosen@[i] != #[trigger] chosen@[k2]
                    && scores@[chosen@[i] as int] >= scores@[chosen@[k2] as int] by {
                if k2 == chosen@.len() - 1 {
                    assert(prev[i] == chosen@[i]);
                    assert(prev.contains(chosen@[i]));
                }
            }
            assert forall|m: int|
                0 <= m < n && !chosen@.contains(m as usize) && chosen@.len() > 0
                    implies #[trigger] scores@[m] <= scores@[chosen@[chosen@.len() - 1] as int] by {
                if prev.contains(m as usize) {
                    let i = choose|i: int| 0 <= i < prev.len() && prev[i] == m as usize;
                    assert(chosen@[i] == m as usize);
                }
            }
        }
    }

    // The first artist of each chosen id.
    let mut r: Vec<Artist> = Vec::new();
    let mut i: usize = 0;
    while i < chosen.len()
        invariant
            i <= chosen@.len(),
            r@.len() == i,
            arts == artists@,
            sv == songs@,
            n == ids@.len(),
            ids@.len() == scores@.len(),
            forall|q: int| 0 <= q < chosen@.len() ==> (#[trigger] chosen@[q]) < n,
            forall|k: int|
                0 <= k < ids@.len() ==> scores@[k] == kept_score(
                    arts,
                    sv,
                    artist_id@,
                    cname,
                    (#[trigger] ids@[k])@,
                ) && scores@[k] > 0,
            forall|q: int| 0 <= q < i ==> (#[trigger] r@[q]).id@ == ids@[chosen@[q] as int]@
                && (first_with_id(arts, r@[q].id@) matches Some(f) && r@[q]@ == arts[f]@),
        decreases chosen@.len() - i,
    {
        let id = ids[chosen[i]].as_str();
        proof {
            assert(kept_score(arts, sv, artist_id@, cname, id@) > 0);
            lemma_kept_has_artist(arts, sv, artist_id@, cname, id@);
        }
        let mut f: usize = 0;
        while f < artists.len()
            invariant
                f <= arts.len(),
                arts == artists@,
                first_with_id(arts.take(f as int), id@) is None,
            ensures
                f <= arts.len(),
                first_with_id(arts.take(f as int), id@) is None,
                f < arts.len() ==> arts[f as int].id@ == id@,
            decreases arts.len() - f,
        {
            if str_eq(artists[f].id.as_str(), id) {
                break;
            }
            assert(arts.take(f + 1).drop_last() =~= arts.take(f as int));
            f = f + 1;
        }
        proof {
            if f == arts.len() {
                assert(arts.take(f as int) =~= arts);
                assert(false);
            }
            lemma_first_with_id_none(arts.take(f as int), id@);
            lemma_first_with_id(arts, id@, f as int);
            let g = first_with_id(arts, id@)->0;
            if g < f {
                assert(arts.take(f as int)[g] == arts[g]);
            }
        }
        let ghost prev = r@;
        r.push(artists[f].duplicate());
        proof {
            assert forall|q: int| 0 <= q < i + 1 implies (#[trigger] r@[q]).id@ == ids@[chosen@[q] as int]@
                && (first_with_id(arts, r@[q].id@) matches Some(f2) && r@[q]@ == arts[f2]@) by {
                if q < i {
                    assert(r@[q] == prev[q]);
                }
            }
        }
        i = i + 1;
    }
    proof {
        let v = r@;
        assert forall|q: int| 0 <= q < v.len() implies kept_score(arts, sv, artist_id@, cname, (#[trigger] v[q]).id@) > 0
            && (first_with_id(arts, v[q].id@) matches Some(f) && v[q]@ == arts[f]@) by {
            assert(chosen@[q] < n);
        }
        assert forall|q: int, k: int| 0 <= q < k < v.len() implies (#[trigger] v[q]).id@ != (#[trigger] v[k]).id@
            && kept_score(arts, sv, artist_id@, cname, v[q].id@) >= kept_score(arts, sv, artist_id@, cname, v[k].id@) by {
            assert(chosen@[q] != chosen@[k]);
            assert(views(ids@)[chosen@[q] as int] == ids@[chosen@[q] as int]@);
            assert(views(ids@)[chosen@[k] as int] == ids@[chosen@[k] as int]@);
        }
        assert forall|id: Seq<char>|
            #[trigger] kept_score(arts, sv, artist_id@, cname, id) > 0 && !artist_ids(v).contains(id)
            implies v.len() == RELATED_ARTIST_LIMIT && kept_score(arts, sv, artist_id@, cname, id)
                <= kept_score(arts, sv, artist_id@, cname, v[v.len() - 1].id@) by {
            assert(views(ids@).contains(id));
            let m = choose|m: int| 0 <= m < views(ids@).len() && views(ids@)[m] == id;
            assert(ids@[m]@ == id);
            if chosen@.contains(m as usize) {
                let q = choose|q: int| 0 <= q < chosen@.len() && chosen@[q] == m as usize;
                assert(artist_ids(v)[q] == id);
            }
        }
    }
    Some(r)
}

} // verus!
