//! The diagram of a route: every station of the run as a label, joined by
//! line art, with the train drawn behind the station it left last.
//!
//! The diagram is built from fragments.  A fragment is a run of characters
//! that is as long as the diagram is high; it becomes one column of the
//! diagram.  A station contributes its label, and, unless the route ends
//! there, two pieces of track that lead on to the next station.  The second
//! piece carries the train when the train is past that station.

use vstd::prelude::*;
use crate::search::{
    first_index, first_index_within, lemma_first_index, lemma_first_index_within,
    lemma_found_first,
};
use crate::text::{chars_of, push_repeated, repeated, rows, texts};
use crate::train::{codes_of, Station};

verus! {

/// The character that marks the position of the train.
pub const TRAIN_GLYPH: char = '\u{f08c4}';

/// Some station has the code `code`.
pub open spec fn has_code(codes: Seq<Seq<char>>, code: Seq<char>) -> bool {
    codes.contains(code)
}

/// The index of the station before the first one with the code `next`:
/// the station that the train left last.  There is none when the train
/// approaches the first station, or when no station has the code.
pub open spec fn previous_index(codes: Seq<Seq<char>>, next: Seq<char>) -> Option<int> {
    match first_index(codes, next) {
        Some(i) => if i > 0 {
            Some(i - 1)
        } else {
            None
        },
        None => None,
    }
}

/// The position of the first station with the code `code`.
pub fn find_station(stations: &Vec<Station>, code: &String) -> (found: Option<usize>)
    ensures
        found is Some <==> has_code(codes_of(stations@), code@),
        match found {
            Some(i) => i < stations.len() && first_index(codes_of(stations@), code@) == Some(
                i as int,
            ),
            None => first_index(codes_of(stations@), code@) is None,
        },
{
    let ghost codes = codes_of(stations@);
    let mut i: usize = 0;
    while i < stations.len()
        invariant
            i <= stations.len(),
            codes == codes_of(stations@),
            first_index_within(codes, code@, i as int) is None,
        decreases stations.len() - i,
    {
        if stations[i].code == *code {
            proof {
                assert(codes[i as int] == code@);
                lemma_found_first(codes, code@, i as int);
            }
            return Some(i);
        }
        i = i + 1;
    }
    proof {
        lemma_first_index(codes, code@);
    }
    None
}

/// The position of the station that the train left last: the one before
/// the first station with the code `next_code`.
pub fn previous_station(stations: &Vec<Station>, next_code: &String) -> (previous: Option<usize>)
    ensures
        match previous {
            Some(p) => p + 1 < stations.len() && previous_index(codes_of(stations@), next_code@)
                == Some(p as int),
            None => previous_index(codes_of(stations@), next_code@) is None,
        },
{
    match find_station(stations, next_code) {
        Some(i) => if i > 0 {
            Some(i - 1)
        } else {
            None
        },
        None => None,
    }
}

/// The length of the longest code among the first `n` stations.
pub open spec fn longest_within(codes: Seq<Seq<char>>, n: int) -> nat
    decreases n,
{
    if n <= 0 {
        0
    } else {
        let rest = longest_within(codes, n - 1);
        if codes[n - 1].len() > rest {
            codes[n - 1].len()
        } else {
            rest
        }
    }
}

/// The length of the longest station code, 0 when there is no station.
pub open spec fn code_width(codes: Seq<Seq<char>>) -> nat {
    longest_within(codes, codes.len() as int)
}

/// The label of a station: its code, filled up with `|` to one more than
/// `width`, and closed by `-`.
pub open spec fn label_fragment(code: Seq<char>, width: nat) -> Seq<char> {
    code + repeated('|', (width + 1 - code.len()) as nat) + seq!['-']
}

/// A piece of track between two stations.
pub open spec fn spacer_fragment(width: nat) -> Seq<char> {
    repeated(' ', width + 1) + seq!['-']
}

/// The piece of track that carries the train.
pub open spec fn train_fragment(width: nat) -> Seq<char> {
    repeated(' ', width + 1) + seq![TRAIN_GLYPH]
}

/// The second piece of track behind a station: with the train on it when
/// `train_here`, plain otherwise.
pub open spec fn marker_fragment(width: nat, train_here: bool) -> Seq<char> {
    if train_here {
        train_fragment(width)
    } else {
        spacer_fragment(width)
    }
}

/// The fragments of one station: the label alone where the route ends
/// (`terminal`), and the label with two pieces of track elsewhere.
pub open spec fn station_fragments(
    code: Seq<char>,
    width: nat,
    terminal: bool,
    train_here: bool,
) -> Seq<Seq<char>> {
    if terminal {
        seq![label_fragment(code, width)]
    } else {
        seq![label_fragment(code, width), spacer_fragment(width), marker_fragment(width, train_here)]
    }
}

/// The fragments of the first `n` stations, one station after the other.
/// A station is terminal when its code is `destination`; the train is at
/// the station with the index `train_at`.
pub open spec fn fragments_within(
    codes: Seq<Seq<char>>,
    destination: Seq<char>,
    train_at: Option<int>,
    width: nat,
    n: int,
) -> Seq<Seq<char>>
    decreases n,
{
    if n <= 0 {
        Seq::empty()
    } else {
        fragments_within(codes, destination, train_at, width, n - 1) + station_fragments(
            codes[n - 1],
            width,
            codes[n - 1] == destination,
            train_at == Some(n - 1),
        )
    }
}

/// The fragments of a route whose train approaches the station `next`.
pub open spec fn route_fragments(
    codes: Seq<Seq<char>>,
    destination: Seq<char>,
    next: Seq<char>,
) -> Seq<Seq<char>> {
    fragments_within(
        codes,
        destination,
        previous_index(codes, next),
        code_width(codes),
        codes.len() as int,
    )
}

/// The lines read across the fragments: line `r` holds character `r` of
/// every fragment, in the order of the fragments.
pub open spec fn transposed(fragments: Seq<Seq<char>>, height: nat) -> Seq<Seq<char>> {
    Seq::new(height, |r: int| Seq::new(fragments.len(), |c: int| fragments[c][r]))
}

/// The diagram of a route, line by line.
pub open spec fn diagram(codes: Seq<Seq<char>>, destination: Seq<char>, next: Seq<char>) -> Seq<
    Seq<char>,
> {
    transposed(route_fragments(codes, destination, next), code_width(codes) + 2)
}

/// No code among the first `n` is longer than `longest_within` says, and
/// one of them is that long.
pub proof fn lemma_longest_within(codes: Seq<Seq<char>>, n: int)
    requires
        0 <= n <= codes.len(),
    ensures
        forall|i: int| 0 <= i < n ==> (#[trigger] codes[i]).len() <= longest_within(codes, n),
        n > 0 ==> exists|i: int| 0 <= i < n && (#[trigger] codes[i]).len() == longest_within(codes, n),
        n == 0 ==> longest_within(codes, n) == 0,
    decreases n,
{
    if n > 0 {
        lemma_longest_within(codes, n - 1);
        if n - 1 > 0 {
            let i = choose|i: int| 0 <= i < n - 1 && (#[trigger] codes[i]).len() == longest_within(codes, n - 1);
            assert(codes[i].len() == longest_within(codes, n - 1));
        }
        assert(codes[n - 1].len() <= longest_within(codes, n));
    }
}

/// The length of the longest station code.
pub fn longest_code(stations: &Vec<Station>) -> (width: usize)
    ensures
        width == code_width(codes_of(stations@)),
{
    let ghost codes = codes_of(stations@);
    let mut width: usize = 0;
    let mut i: usize = 0;
    while i < stations.len()
        invariant
            i <= stations.len(),
            codes == codes_of(stations@),
            width == longest_within(codes, i as int),
        decreases stations.len() - i,
    {
        let n = stations[i].code.as_str().unicode_len();
        if n > width {
            width = n;
        }
        i = i + 1;
    }
    width
}

/// The label of the station with the code `code`, for codes up to `width`
/// characters long.
pub fn label_fragment_of(code: &str, width: usize) -> (fragment: Vec<char>)
    requires
        code@.len() <= width,
    ensures
        fragment@ == label_fragment(code@, width as nat),
{
    let mut fragment = chars_of(code);
    let fill = width - fragment.len();
    push_repeated(&mut fragment, '|', fill);
    fragment.push('|');
    fragment.push('-');
    assert(fragment@ == label_fragment(code@, width as nat)) by {
        assert(repeated('|', fill as nat).push('|') == repeated('|', (width + 1 - code@.len()) as nat));
    }
    fragment
}

/// A piece of track, closed by `last`.
fn track_fragment_of(width: usize, last: char) -> (fragment: Vec<char>)
    ensures
        fragment@ == repeated(' ', (width + 1) as nat) + seq![last],
{
    let mut fragment: Vec<char> = Vec::new();
    push_repeated(&mut fragment, ' ', width);
    fragment.push(' ');
    fragment.push(last);
    assert(fragment@ == repeated(' ', (width + 1) as nat) + seq![last]) by {
        assert(repeated(' ', width as nat).push(' ') == repeated(' ', (width + 1) as nat));
    }
    fragment
}

/// The number of fragments that the first `n` stations contribute.
pub open spec fn fragment_count(codes: Seq<Seq<char>>, destination: Seq<char>, n: int) -> nat
    decreases n,
{
    if n <= 0 {
        0
    } else if codes[n - 1] == destination {
        fragment_count(codes, destination, n - 1) + 1
    } else {
        fragment_count(codes, destination, n - 1) + 3
    }
}

/// The first `n` stations contribute `fragment_count` fragments, and each
/// fragment is two characters longer than `width`, provided that no code
/// is longer than `width`.
pub proof fn lemma_fragments_within(
    codes: Seq<Seq<char>>,
    destination: Seq<char>,
    train_at: Option<int>,
    width: nat,
    n: int,
)
    requires
        0 <= n <= codes.len(),
    ensures
        fragments_within(codes, destination, train_at, width, n).len() == fragment_count(
            codes,
            destination,
            n,
        ),
        (forall|i: int| 0 <= i < n ==> (#[trigger] codes[i]).len() <= width) ==> forall|j: int|
            0 <= j < fragment_count(codes, destination, n) ==> (#[trigger] fragments_within(
                codes,
                destination,
                train_at,
                width,
                n,
            )[j]).len() == width + 2,
    decreases n,
{
    if n > 0 {
        lemma_fragments_within(codes, destination, train_at, width, n - 1);
        if forall|i: int| 0 <= i < n ==> (#[trigger] codes[i]).len() <= width {
            assert(codes[n - 1].len() <= width);
        }
    }
}

/// Builds the fragments of a route whose train approaches the station
/// with the code `next_code`.
pub fn route_fragments_of(
    stations: &Vec<Station>,
    destination_code: &String,
    next_code: &String,
) -> (fragments: Vec<Vec<char>>)
    ensures
        rows(fragments@) == route_fragments(codes_of(stations@), destination_code@, next_code@),
{
    let width = longest_code(stations);
    let previous = previous_station(stations, next_code);
    let ghost codes = codes_of(stations@);
    let ghost train_at = previous_index(codes, next_code@);
    let mut fragments: Vec<Vec<char>> = Vec::new();
    let mut i: usize = 0;
    assert(rows(fragments@) == fragments_within(codes, destination_code@, train_at, width as nat, 0));
    while i < stations.len()
        invariant
            i <= stations.len(),
            codes == codes_of(stations@),
            width == code_width(codes),
            train_at == previous_index(codes, next_code@),
            match previous {
                Some(p) => train_at == Some(p as int),
                None => train_at is None,
            },
            rows(fragments@) == fragments_within(
                codes,
                destination_code@,
                train_at,
                width as nat,
                i as int,
            ),
        decreases stations.len() - i,
    {
        let ghost before = rows(fragments@);
        let station = &stations[i];
        proof {
            lemma_longest_within(codes, codes.len() as int);
            assert(codes[i as int] == station.code@);
        }
        fragments.push(label_fragment_of(station.code.as_str(), width));
        if station.code == *destination_code {
            assert(rows(fragments@) == before + station_fragments(
                codes[i as int],
                width as nat,
                true,
                train_at == Some(i as int),
            ));
        } else {
            let train_here = match previous {
                Some(p) => p == i,
                None => false,
            };
            fragments.push(track_fragment_of(width, '-'));
            fragments.push(
                track_fragment_of(
                    width,
                    if train_here {
                        TRAIN_GLYPH
                    } else {
                        '-'
                    },
                ),
            );
            assert(rows(fragments@) == before + station_fragments(
                codes[i as int],
                width as nat,
                false,
                train_at == Some(i as int),
            ));
        }
        i = i + 1;
    }
    fragments
}

/// Reads the lines across the fragments.
pub fn transpose(fragments: &Vec<Vec<char>>, height: usize) -> (lines: Vec<String>)
    requires
        forall|c: int| 0 <= c < fragments.len() ==> height <= (#[trigger] fragments[c]).len(),
    ensures
        texts(lines@) == transposed(rows(fragments@), height as nat),
{
    let mut lines: Vec<String> = Vec::new();
    let mut r: usize = 0;
    while r < height
        invariant
            r <= height,
            forall|c: int| 0 <= c < fragments.len() ==> height <= (#[trigger] fragments[c]).len(),
            lines.len() == r,
            forall|k: int|
                0 <= k < r ==> (#[trigger] lines[k])@ == transposed(
                    rows(fragments@),
                    height as nat,
                )[k],
        decreases height - r,
    {
        let mut line = String::new();
        let mut c: usize = 0;
        while c < fragments.len()
            invariant
                c <= fragments.len(),
                r < height,
                forall|c: int|
                    0 <= c < fragments.len() ==> height <= (#[trigger] fragments[c]).len(),
                line@ == Seq::new(c as nat, |j: int| rows(fragments@)[j][r as int]),
            decreases fragments.len() - c,
        {
            line.push(fragments[c][r]);
            c = c + 1;
        }
        lines.push(line);
        r = r + 1;
    }
    assert(texts(lines@) =~= transposed(rows(fragments@), height as nat));
    lines
}

/// The diagram of the route through `stations` that ends at the station
/// with the code `destination_code`, for a train that approaches the
/// station with the code `next_code`.
pub fn render_route(stations: &Vec<Station>, destination_code: &String, next_code: &String) -> (lines:
    Vec<String>)
    requires
        has_code(codes_of(stations@), next_code@),
    ensures
        texts(lines@) == diagram(codes_of(stations@), destination_code@, next_code@),
{
    let fragments = route_fragments_of(stations, destination_code, next_code);
    let ghost codes = codes_of(stations@);
    proof {
        lemma_longest_within(codes, codes.len() as int);
        lemma_fragments_within(
            codes,
            destination_code@,
            previous_index(codes, next_code@),
            code_width(codes),
            codes.len() as int,
        );
        assert(fragment_count(codes, destination_code@, codes.len() as int) > 0);
        assert forall|c: int| 0 <= c < fragments.len() implies (#[trigger] fragments[c]).len()
            == code_width(codes) + 2 by {
            assert(fragments[c]@ == rows(fragments@)[c]);
        }
    }
    let height = fragments[0].len();
    transpose(&fragments, height)
}

/// Later stations start further along: the fragments of the first `k`
/// stations are among those of the first `n`.
pub proof fn lemma_fragment_count_grows(
    codes: Seq<Seq<char>>,
    destination: Seq<char>,
    k: int,
    n: int,
)
    requires
        0 <= k <= n,
    ensures
        fragment_count(codes, destination, k) <= fragment_count(codes, destination, n),
    decreases n,
{
    if k < n {
        lemma_fragment_count_grows(codes, destination, k, n - 1);
    }
}

/// Where each station stands among the fragments: the fragments of the
/// station `k` follow those of the stations before it, in one piece.
pub proof fn lemma_station_slice(
    codes: Seq<Seq<char>>,
    destination: Seq<char>,
    train_at: Option<int>,
    width: nat,
    n: int,
    k: int,
)
    requires
        0 <= k < n <= codes.len(),
    ensures
        fragment_count(codes, destination, k + 1) <= fragments_within(
            codes,
            destination,
            train_at,
            width,
            n,
        ).len(),
        fragments_within(codes, destination, train_at, width, n).subrange(
            fragment_count(codes, destination, k) as int,
            fragment_count(codes, destination, k + 1) as int,
        ) == station_fragments(codes[k], width, codes[k] == destination, train_at == Some(k)),
    decreases n,
{
    let all = fragments_within(codes, destination, train_at, width, n);
    let before = fragments_within(codes, destination, train_at, width, n - 1);
    let last = station_fragments(
        codes[n - 1],
        width,
        codes[n - 1] == destination,
        train_at == Some(n - 1),
    );
    let from = fragment_count(codes, destination, k) as int;
    let to = fragment_count(codes, destination, k + 1) as int;
    lemma_fragments_within(codes, destination, train_at, width, n);
    lemma_fragments_within(codes, destination, train_at, width, n - 1);
    assert(all == before + last);
    if k == n - 1 {
        assert(all.subrange(from, to) =~= last);
    } else {
        lemma_station_slice(codes, destination, train_at, width, n - 1, k);
        assert(all.subrange(from, to) =~= before.subrange(from, to));
    }
}

/// The train is drawn once at most: a fragment carries the train exactly
/// when it is the second piece of track behind the station `train_at`,
/// and that station is not terminal.  Every other fragment ends in `-`.
pub proof fn lemma_train_fragment(
    codes: Seq<Seq<char>>,
    destination: Seq<char>,
    train_at: Option<int>,
    width: nat,
    n: int,
    j: int,
)
    requires
        0 <= n <= codes.len(),
        0 <= j < fragment_count(codes, destination, n),
    ensures
        fragments_within(codes, destination, train_at, width, n)[j] == train_fragment(width) <==> (
        train_at matches Some(p) && 0 <= p < n && codes[p] != destination && j == fragment_count(
            codes,
            destination,
            p,
        ) + 2),
        fragments_within(codes, destination, train_at, width, n)[j] == train_fragment(width)
            || fragments_within(codes, destination, train_at, width, n)[j].last() == '-',
        train_fragment(width).last() == TRAIN_GLYPH,
    decreases n,
{
    let all = fragments_within(codes, destination, train_at, width, n);
    let before = fragments_within(codes, destination, train_at, width, n - 1);
    let code = codes[n - 1];
    let last = station_fragments(code, width, code == destination, train_at == Some(n - 1));
    let start = fragment_count(codes, destination, n - 1) as int;
    lemma_fragments_within(codes, destination, train_at, width, n - 1);
    assert(all == before + last);
    assert(label_fragment(code, width).last() == '-');
    assert(spacer_fragment(width).last() == '-');
    assert(train_fragment(width).last() == TRAIN_GLYPH);
    if let Some(p) = train_at {
        if 0 <= p < n - 1 && codes[p] != destination {
            lemma_fragment_count_grows(codes, destination, p + 1, n - 1);
        }
    }
    if j < start {
        lemma_train_fragment(codes, destination, train_at, width, n - 1, j);
        assert(all[j] == before[j]);
    } else {
        assert(all[j] == last[j - start]);
    }
}

/// The destination contributes its label and nothing else: no piece of
/// track leads on from a station where the route ends.
pub proof fn lemma_destination_is_label_only(
    codes: Seq<Seq<char>>,
    destination: Seq<char>,
    next: Seq<char>,
    k: int,
)
    requires
        0 <= k < codes.len(),
        codes[k] == destination,
    ensures
        fragment_count(codes, destination, k + 1) == fragment_count(codes, destination, k) + 1,
        fragment_count(codes, destination, k + 1) <= route_fragments(
            codes,
            destination,
            next,
        ).len(),
        route_fragments(codes, destination, next).subrange(
            fragment_count(codes, destination, k) as int,
            fragment_count(codes, destination, k + 1) as int,
        ) == seq![label_fragment(destination, code_width(codes))],
{
    lemma_station_slice(
        codes,
        destination,
        previous_index(codes, next),
        code_width(codes),
        codes.len() as int,
        k,
    );
}

/// In the fragments of a route the train is drawn behind the station
/// before the one it approaches, unless the route ends at that station, and
/// nowhere else.  It is not drawn at all when the train approaches the
/// first station.
pub proof fn lemma_train_drawn_behind_previous(
    codes: Seq<Seq<char>>,
    destination: Seq<char>,
    next: Seq<char>,
    j: int,
)
    requires
        0 <= j < route_fragments(codes, destination, next).len(),
    ensures
        route_fragments(codes, destination, next)[j] == train_fragment(code_width(codes)) <==> (
        previous_index(codes, next) matches Some(p) && codes[p] != destination && j
            == fragment_count(codes, destination, p) + 2),
{
    let train_at = previous_index(codes, next);
    let n = codes.len() as int;
    lemma_fragments_within(codes, destination, train_at, code_width(codes), n);
    lemma_train_fragment(codes, destination, train_at, code_width(codes), n, j);
    lemma_first_index_within(codes, next, n);
}

/// The shape of the diagram: two lines more than the longest code has
/// characters, each with one character for every fragment.  The train
/// stands in the last line, in the column of its fragment, and nowhere
/// else in that line.
pub proof fn lemma_diagram_shape(codes: Seq<Seq<char>>, destination: Seq<char>, next: Seq<char>)
    ensures
        diagram(codes, destination, next).len() == code_width(codes) + 2,
        forall|r: int|
            0 <= r < code_width(codes) + 2 ==> (#[trigger] diagram(codes, destination, next)[r]).len()
                == fragment_count(codes, destination, codes.len() as int),
        forall|j: int|
            0 <= j < fragment_count(codes, destination, codes.len() as int) ==> (diagram(
                codes,
                destination,
                next,
            ).last()[j] == TRAIN_GLYPH <==> #[trigger] route_fragments(
                codes,
                destination,
                next,
            )[j] == train_fragment(code_width(codes))),
{
    let train_at = previous_index(codes, next);
    let width = code_width(codes);
    let n = codes.len() as int;
    let fragments = route_fragments(codes, destination, next);
    lemma_longest_within(codes, n);
    lemma_fragments_within(codes, destination, train_at, width, n);
    assert forall|j: int| 0 <= j < fragment_count(codes, destination, n) implies (diagram(
        codes,
        destination,
        next,
    ).last()[j] == TRAIN_GLYPH <==> #[trigger] fragments[j] == train_fragment(width)) by {
        lemma_train_fragment(codes, destination, train_at, width, n, j);
        assert(fragments[j].len() == width + 2);
        assert(fragments[j].last() == fragments[j][width as int + 1]);
    }
}

} // verus!
