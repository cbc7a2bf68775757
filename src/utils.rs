//! Readers shared by the metadata accessors: display text, navigation
//! targets, thumbnail URLs and numbers embedded in text.
use crate::json::{get_opt, str_opt, walk, Hop, Json, JsonV};
use crate::stream::{thumbnail_of, views_of, Thumbnail};
use crate::text::{all_digits, concat2, digits_value, is_digit, replace_char, replaced, starts_with};
use vstd::prelude::*;

verus! {

/// The digits of a text, in order.
pub open spec fn digits_of(s: Seq<char>) -> Seq<char>
    decreases s.len(),
{
    if s.len() == 0 {
        Seq::empty()
    } else {
        let p = digits_of(s.drop_last());
        if is_digit(s.last()) {
            p.push(s.last())
        } else {
            p
        }
    }
}

/// The number spelled by the digits of a text, when it has some and the
/// number is at most `max`.
pub open spec fn digits_number(s: Seq<char>, max: int) -> Option<int> {
    let d = digits_of(s);
    if d.len() > 0 && digits_value(d) <= max {
        Some(digits_value(d))
    } else {
        None
    }
}

proof fn lemma_digits_of_digits(s: Seq<char>)
    ensures
        all_digits(digits_of(s)),
        digits_value(digits_of(s)) >= 0,
    decreases s.len(),
{
    if s.len() > 0 {
        lemma_digits_of_digits(s.drop_last());
        let p = digits_of(s.drop_last());
        if is_digit(s.last()) {
            let q = p.push(s.last());
            assert(q.drop_last() =~= p);
            assert forall|i: int| 0 <= i < q.len() implies is_digit(#[trigger] q[i]) by {
                if i < p.len() {
                    assert(q[i] == p[i]);
                }
            }
        }
    }
}

proof fn lemma_digits_grow(s: Seq<char>, k: int, max: int)
    requires
        0 <= k <= s.len(),
        max >= 0,
        digits_value(digits_of(s.subrange(0, k))) > max,
    ensures
        digits_value(digits_of(s)) > max,
    decreases s.len() - k,
{
    if k < s.len() {
        let pre = s.subrange(0, k + 1);
        assert(pre.drop_last() =~= s.subrange(0, k));
        let p = digits_of(s.subrange(0, k));
        if is_digit(s[k]) {
            assert(p.push(s[k]).drop_last() =~= p);
        }
        lemma_digits_grow(s, k + 1, max);
    } else {
        assert(s.subrange(0, k) =~= s);
    }
}

/// The number spelled by the digits of a text, at most `max`.
pub fn remove_non_digit_chars(s: &str, max: u128) -> (r: Option<u128>)
    ensures
        match digits_number(s@, max as int) {
            Some(n) => r == Some(n as u128) && 0 <= n <= max,
            None => r is None,
        },
{
    let n = s.unicode_len();
    let mut acc: u128 = 0;
    let mut count: usize = 0;
    let mut i: usize = 0;
    proof {
        assert(s@.subrange(0, 0) =~= Seq::<char>::empty());
    }
    while i < n
        invariant
            n == s@.len(),
            i <= n,
            acc as int == digits_value(digits_of(s@.subrange(0, i as int))),
            count == digits_of(s@.subrange(0, i as int)).len(),
            count <= i,
            acc <= max,
        decreases n - i,
    {
        let c = s.get_char(i);
        let ghost pre = s@.subrange(0, i as int + 1);
        let ghost before = digits_of(s@.subrange(0, i as int));
        proof {
            assert(pre.drop_last() =~= s@.subrange(0, i as int));
            assert(pre.last() == c);
        }
        if '0' <= c && c <= '9' {
            let digit = (c as u32 - '0' as u32) as u128;
            proof {
                assert(before.push(c).drop_last() =~= before);
            }
            if digit > max || acc > (max - digit) / 10 {
                proof {
                    if digit <= max {
                        assert(acc * 10 + digit > max) by (nonlinear_arith)
                            requires
                                acc > (max - digit) / 10,
                                digit <= max,
                        ;
                    }
                    assert(digits_value(before.push(c)) == acc * 10 + digit);
                    lemma_digits_grow(s@, i as int + 1, max as int);
                }
                return None;
            }
            proof {
                assert(acc * 10 + digit <= max) by (nonlinear_arith)
                    requires
                        acc <= (max - digit) / 10,
                        digit <= max,
                ;
            }
            acc = acc * 10 + digit;
            count += 1;
        }
        i += 1;
    }
    proof {
        assert(s@.subrange(0, n as int) =~= s@);
        lemma_digits_of_digits(s@);
    }
    if count == 0 {
        None
    } else {
        Some(acc)
    }
}

/// The text of a list of runs: each run's `text`, where it is text, in order.
pub open spec fn runs_text(runs: Seq<JsonV>) -> Seq<char>
    decreases runs.len(),
{
    if runs.len() == 0 {
        Seq::empty()
    } else {
        runs_text(runs.drop_last()) + match JsonV::text_of(runs.last().field("text"@)) {
            Some(t) => t,
            None => Seq::empty(),
        }
    }
}

/// The display text of a text object: its `simpleText`, or else the text of
/// its `runs`; nothing where neither gives any text. As markup, each line
/// break becomes `<br>`.
pub open spec fn display_text(obj: JsonV, html: bool) -> Option<Seq<char>> {
    let plain = match JsonV::text_of(obj.field("simpleText"@)) {
        Some(t) => Some(t),
        None => match obj.field("runs"@) {
            Some(JsonV::Array(runs)) => if runs_text(runs).len() == 0 {
                None
            } else {
                Some(runs_text(runs))
            },
            _ => None,
        },
    };
    match plain {
        Some(t) => if html {
            Some(replaced(t, '\n', "<br>"@))
        } else {
            Some(t)
        },
        None => None,
    }
}

fn runs_concat(runs: &Vec<Json>) -> (r: String)
    ensures
        r@ == runs_text(views_of(runs@)),
{
    let ghost all = views_of(runs@);
    let mut out = String::new();
    let mut i: usize = 0;
    proof {
        assert(all.subrange(0, 0) =~= Seq::<JsonV>::empty());
    }
    while i < runs.len()
        invariant
            all == views_of(runs@),
            i <= runs@.len(),
            out@ == runs_text(all.subrange(0, i as int)),
        decreases runs.len() - i,
    {
        let ghost pre = all.subrange(0, i as int + 1);
        proof {
            assert(pre.drop_last() =~= all.subrange(0, i as int));
            assert(pre.last() == runs@[i as int]@);
        }
        match runs[i].get("text") {
            Some(t) => match t.as_str() {
                Some(text) => out.append(text.as_str()),
                None => {
                    proof {
                        assert(out@ + Seq::<char>::empty() =~= out@);
                    }
                },
            },
            None => {
                proof {
                    assert(out@ + Seq::<char>::empty() =~= out@);
                }
            },
        }
        i += 1;
    }
    proof {
        assert(all.subrange(0, i as int) =~= all);
    }
    out
}

/// The display text of a text object.
pub fn text_from_object(obj: &Json, html: bool) -> (r: Option<String>)
    ensures
        crate::fields::text_view(r) == display_text(obj@, html),
{
    let plain = match obj.get("simpleText") {
        Some(t) => match t.as_str() {
            Some(s) => Some(s.clone()),
            None => None,
        },
        None => None,
    };
    let plain = match plain {
        Some(p) => Some(p),
        None => match obj.get("runs") {
            Some(r) => match r.as_array() {
                Some(runs) => {
                    proof {
                        crate::stream::lemma_array_view(*r, *runs);
                    }
                    let t = runs_concat(runs);
                    if t.unicode_len() == 0 {
                        None
                    } else {
                        Some(t)
                    }
                },
                None => None,
            },
            None => None,
        },
    };
    match plain {
        Some(t) => if html {
            Some(replace_char(t.as_str(), '\n', "<br>"))
        } else {
            Some(t)
        },
        None => None,
    }
}

/// The URL a navigation endpoint leads to: a plain URL, a browse target
/// under the site, or a watch page; empty where it names none of these.
pub open spec fn navigation_url(nav: JsonV) -> Seq<char> {
    let url = JsonV::text_of(walk(Some(nav), seq![Hop::Key("urlEndpoint"), Hop::Key("url")]));
    let base = JsonV::text_of(
        walk(Some(nav), seq![Hop::Key("browseEndpoint"), Hop::Key("canonicalBaseUrl")]),
    );
    let id = JsonV::text_of(walk(Some(nav), seq![Hop::Key("browseEndpoint"), Hop::Key("browseId")]));
    let video = JsonV::text_of(walk(Some(nav), seq![Hop::Key("watchEndpoint"), Hop::Key("videoId")]));
    if url is Some {
        url->0
    } else if base is Some {
        "https://www.youtube.com"@ + base->0
    } else if id is Some {
        "https://www.youtube.com/channel/"@ + id->0
    } else if video is Some {
        "https://www.youtube.com/watch?v="@ + video->0
    } else {
        Seq::empty()
    }
}

fn text_at(nav: &Json, first: &'static str, second: &'static str) -> (r: Option<String>)
    ensures
        crate::fields::text_view(r) == JsonV::text_of(
            walk(Some(nav@), seq![Hop::Key(first), Hop::Key(second)]),
        ),
{
    let ghost path = seq![Hop::Key(first), Hop::Key(second)];
    proof {
        assert(path.drop_first() =~= seq![Hop::Key(second)]);
        assert(path.drop_first().drop_first() =~= Seq::<Hop>::empty());
        reveal_with_fuel(walk, 3);
    }
    match str_opt(get_opt(nav.get(first), second)) {
        Some(s) => Some(s.clone()),
        None => None,
    }
}

/// The URL a navigation endpoint leads to.
pub fn url_from_navigation_endpoint(nav: &Json) -> (r: String)
    ensures
        r@ == navigation_url(nav@),
{
    match text_at(nav, "urlEndpoint", "url") {
        Some(u) => return u,
        None => {},
    }
    match text_at(nav, "browseEndpoint", "canonicalBaseUrl") {
        Some(b) => return concat2("https://www.youtube.com", b.as_str()),
        None => {},
    }
    match text_at(nav, "browseEndpoint", "browseId") {
        Some(id) => return concat2("https://www.youtube.com/channel/", id.as_str()),
        None => {},
    }
    match text_at(nav, "watchEndpoint", "videoId") {
        Some(v) => concat2("https://www.youtube.com/watch?v=", v.as_str()),
        None => String::new(),
    }
}

/// A thumbnail URL made absolute and secure: a leading `//` is dropped, and
/// `http://` becomes `https://`; a URL without a scheme gets `https://`.
pub open spec fn fixed_thumbnail_url(url: Seq<char>) -> Seq<char> {
    let a = if url.len() >= 2 && url.subrange(0, 2) == "//"@ {
        url.subrange(2, url.len() as int)
    } else {
        url
    };
    if a.len() >= 4 && a.subrange(0, 4) == "http"@ {
        if a.len() >= 7 && a.subrange(0, 7) == "http://"@ {
            "https://"@ + a.subrange(7, a.len() as int)
        } else {
            a
        }
    } else {
        "https://"@ + a
    }
}

pub fn fix_thumbnail_url(url: &str) -> (r: String)
    ensures
        r@ == fixed_thumbnail_url(url@),
{
    proof {
        reveal_strlit("//");
        reveal_strlit("http");
        reveal_strlit("http://");
    }
    let n = url.unicode_len();
    let a = if starts_with(url, "//") {
        url.substring_char(2, n)
    } else {
        url
    };
    let m = a.unicode_len();
    if starts_with(a, "http") {
        if starts_with(a, "http://") {
            concat2("https://", a.substring_char(7, m))
        } else {
            String::from_str(a)
        }
    } else {
        concat2("https://", a)
    }
}

/// The thumbnails read from a list, in order, skipping any that do not read;
/// with `fix`, each URL is made absolute.
pub open spec fn thumbnails_in(list: Seq<JsonV>, fix: bool) -> Seq<(Seq<char>, u64, u64)>
    decreases list.len(),
{
    if list.len() == 0 {
        Seq::empty()
    } else {
        let prev = thumbnails_in(list.drop_last(), fix);
        match thumbnail_of(list.last()) {
            Some(t) => prev.push(
                if fix {
                    (fixed_thumbnail_url(t.0), t.1, t.2)
                } else {
                    t
                },
            ),
            None => prev,
        }
    }
}

/// Whether every element of a list reads as a thumbnail.
pub open spec fn all_thumbnails(list: Seq<JsonV>) -> bool {
    forall|i: int| 0 <= i < list.len() ==> (#[trigger] thumbnail_of(list[i])) is Some
}

/// The models of thumbnails.
pub open spec fn thumbnail_models(v: Seq<Thumbnail>) -> Seq<(Seq<char>, u64, u64)> {
    Seq::new(v.len(), |i: int| v[i].model())
}

/// Reads the thumbnails of a list, skipping any that do not read; with
/// `fix`, each URL is made absolute.
pub fn thumbnails_from(list: &Vec<Json>, fix: bool) -> (r: Vec<Thumbnail>)
    ensures
        thumbnail_models(r@) == thumbnails_in(views_of(list@), fix),
{
    let ghost all = views_of(list@);
    let mut out: Vec<Thumbnail> = Vec::new();
    let mut i: usize = 0;
    proof {
        assert(all.subrange(0, 0) =~= Seq::<JsonV>::empty());
        assert(thumbnail_models(out@) =~= Seq::empty());
    }
    while i < list.len()
        invariant
            all == views_of(list@),
            i <= list@.len(),
            thumbnail_models(out@) == thumbnails_in(all.subrange(0, i as int), fix),
        decreases list.len() - i,
    {
        let ghost pre = all.subrange(0, i as int + 1);
        let ghost before = thumbnail_models(out@);
        proof {
            assert(pre.drop_last() =~= all.subrange(0, i as int));
            assert(pre.last() == list@[i as int]@);
        }
        match Thumbnail::from_json(&list[i]) {
            Some(t) => {
                let t = if fix {
                    Thumbnail { url: fix_thumbnail_url(t.url.as_str()), width: t.width, height: t.height }
                } else {
                    t
                };
                let ghost m = t.model();
                out.push(t);
                proof {
                    assert(thumbnail_models(out@) =~= before.push(m));
                }
            },
            None => {},
        }
        i += 1;
    }
    proof {
        assert(all.subrange(0, i as int) =~= all);
    }
    out
}

/// The first index at or after `i` that holds a digit, or the length.
pub open spec fn digit_from(s: Seq<char>, i: int) -> int
    decreases s.len() - i,
{
    if i < 0 || i >= s.len() {
        s.len() as int
    } else if is_digit(s[i]) {
        i
    } else {
        digit_from(s, i + 1)
    }
}

/// The end of the run of digits that starts at `i`.
pub open spec fn run_end(s: Seq<char>, i: int) -> int
    decreases s.len() - i,
{
    if i < 0 || i >= s.len() {
        s.len() as int
    } else if !is_digit(s[i]) {
        i
    } else {
        run_end(s, i + 1)
    }
}

/// The power of ten that a magnitude letter stands for.
pub open spec fn scale_of(c: char) -> nat {
    if c == 'K' || c == 'k' {
        3
    } else if c == 'M' || c == 'm' {
        6
    } else if c == 'B' || c == 'b' {
        9
    } else {
        0
    }
}

pub open spec fn pow10(k: nat) -> nat
    decreases k,
{
    if k == 0 {
        1
    } else {
        10 * pow10((k - 1) as nat)
    }
}

/// The first `n` digits of a fraction, padded with zeros.
pub open spec fn padded(f: Seq<char>, n: nat) -> Seq<char> {
    Seq::new(n, |i: int| if i < f.len() { f[i] } else { '0' })
}

/// The number written with an optional magnitude letter ("1.5K", "2,3 M"
/// reads 2): the first run of digits, an optional `.` or `,` and a second run
/// of digits, and the letter right after; the value is truncated to a whole
/// number. Nothing where the text has no digit.
pub open spec fn mixed_number(s: Seq<char>) -> Option<int> {
    let p = digit_from(s, 0);
    if p >= s.len() {
        None
    } else {
        let e = run_end(s, p);
        let has_frac = e + 1 < s.len() && (s[e] == '.' || s[e] == ',') && is_digit(s[e + 1]);
        let f_end = if has_frac {
            run_end(s, e + 1)
        } else {
            e
        };
        let frac = if has_frac {
            s.subrange(e + 1, f_end)
        } else {
            Seq::empty()
        };
        let k = if f_end < s.len() {
            scale_of(s[f_end])
        } else {
            0
        };
        Some(digits_value(s.subrange(p, e)) * pow10(k) + digits_value(padded(frac, k)))
    }
}

proof fn lemma_digit_from_bounds(s: Seq<char>, i: int)
    requires
        0 <= i <= s.len(),
    ensures
        i <= digit_from(s, i) <= s.len(),
        digit_from(s, i) < s.len() ==> is_digit(s[digit_from(s, i)]),
    decreases s.len() - i,
{
    if i < s.len() && !is_digit(s[i]) {
        lemma_digit_from_bounds(s, i + 1);
    }
}

proof fn lemma_run_end_bounds(s: Seq<char>, i: int)
    requires
        0 <= i <= s.len(),
    ensures
        i <= run_end(s, i) <= s.len(),
        forall|j: int| i <= j < run_end(s, i) ==> is_digit(#[trigger] s[j]),
        run_end(s, i) < s.len() ==> !is_digit(s[run_end(s, i)]),
    decreases s.len() - i,
{
    if i < s.len() && is_digit(s[i]) {
        lemma_run_end_bounds(s, i + 1);
    }
}

proof fn lemma_digits_of_all_digits(s: Seq<char>)
    requires
        all_digits(s),
    ensures
        digits_of(s) == s,
    decreases s.len(),
{
    if s.len() > 0 {
        assert(all_digits(s.drop_last())) by {
            assert forall|i: int| 0 <= i < s.drop_last().len() implies is_digit(
                #[trigger] s.drop_last()[i],
            ) by {
                assert(s.drop_last()[i] == s[i]);
            }
        }
        lemma_digits_of_all_digits(s.drop_last());
        assert(is_digit(s[s.len() - 1]));
        assert(s.drop_last().push(s.last()) =~= s);
    }
}

proof fn lemma_pow10_bounds(k: nat)
    requires
        k <= 9,
    ensures
        1 <= pow10(k) <= 1_000_000_000,
    decreases k,
{
    reveal_with_fuel(pow10, 10);
}

/// Finds the first index at or after `i` that holds a digit.
fn find_digit(s: &str, i: usize) -> (r: usize)
    requires
        i <= s@.len(),
    ensures
        r == digit_from(s@, i as int),
{
    let n = s.unicode_len();
    let mut j = i;
    while j < n
        invariant
            n == s@.len(),
            i <= j <= n,
            digit_from(s@, i as int) == digit_from(s@, j as int),
        decreases n - j,
    {
        let c = s.get_char(j);
        if '0' <= c && c <= '9' {
            return j;
        }
        j += 1;
    }
    j
}

/// Finds the end of the run of digits that starts at `i`.
fn find_run_end(s: &str, i: usize) -> (r: usize)
    requires
        i <= s@.len(),
    ensures
        r == run_end(s@, i as int),
{
    let n = s.unicode_len();
    let mut j = i;
    while j < n
        invariant
            n == s@.len(),
            i <= j <= n,
            run_end(s@, i as int) == run_end(s@, j as int),
        decreases n - j,
    {
        let c = s.get_char(j);
        if !('0' <= c && c <= '9') {
            return j;
        }
        j += 1;
    }
    j
}

/// Reads a number written with an optional magnitude letter, at most
/// `i32::MAX`.
pub fn mixed_number_word_parse(s: &str) -> (r: Option<i32>)
    ensures
        match mixed_number(s@) {
            Some(v) => 0 <= v && if v <= i32::MAX {
                r == Some(v as i32)
            } else {
                r is None
            },
            None => r is None,
        },
{
    let n = s.unicode_len();
    let p = find_digit(s, 0);
    proof {
        lemma_digit_from_bounds(s@, 0);
    }
    if p >= n {
        return None;
    }
    let e = find_run_end(s, p);
    proof {
        lemma_run_end_bounds(s@, p as int);
    }
    let has_frac = e < n - 1 && {
        let c = s.get_char(e);
        (c == '.' || c == ',') && {
            let d = s.get_char(e + 1);
            '0' <= d && d <= '9'
        }
    };
    let f_end = if has_frac {
        let f = find_run_end(s, e + 1);
        proof {
            lemma_run_end_bounds(s@, e + 1);
        }
        f
    } else {
        e
    };
    let frac: &str = if has_frac {
        s.substring_char(e + 1, f_end)
    } else {
        proof {
            reveal_strlit("");
        }
        ""
    };
    let k: usize = if f_end < n {
        let c = s.get_char(f_end);
        if c == 'K' || c == 'k' {
            3
        } else if c == 'M' || c == 'm' {
            6
        } else if c == 'B' || c == 'b' {
            9
        } else {
            0
        }
    } else {
        0
    };
    let ghost whole = s@.subrange(p as int, e as int);
    let ghost fr = if has_frac {
        s@.subrange(e + 1, f_end as int)
    } else {
        Seq::<char>::empty()
    };
    proof {
        assert(frac@ == fr);
        assert(all_digits(whole)) by {
            assert forall|j: int| 0 <= j < whole.len() implies is_digit(#[trigger] whole[j]) by {
                assert(whole[j] == s@[p + j]);
            }
        }
        lemma_digits_of_all_digits(whole);
        lemma_digits_of_digits(whole);
        lemma_pow10_bounds(k as nat);
    }
    let ipart = remove_non_digit_chars(s.substring_char(p, e), 2147483647);
    let ghost pad = padded(fr, k as nat);
    proof {
        assert(all_digits(fr)) by {
            assert forall|j: int| 0 <= j < fr.len() implies is_digit(#[trigger] fr[j]) by {
                assert(fr[j] == s@[e + 1 + j]);
            }
        }
        assert(all_digits(pad)) by {
            assert forall|j: int| 0 <= j < pad.len() implies is_digit(#[trigger] pad[j]) by {
                if j < fr.len() {
                    assert(fr[j] == s@[e + 1 + j]);
                }
            }
        }
        lemma_digits_of_digits(pad);
        lemma_digits_of_all_digits(pad);
        assert(digits_value(whole) * pow10(k as nat) >= 0) by (nonlinear_arith)
            requires
                pow10(k as nat) >= 1,
                digits_value(whole) >= 0,
        ;
    }
    let ipart = match ipart {
        Some(v) => v as u64,
        None => {
            proof {
                assert(digits_value(whole) > i32::MAX);
                assert(digits_value(whole) * pow10(k as nat) >= digits_value(whole)) by (nonlinear_arith)
                    requires
                        pow10(k as nat) >= 1,
                        digits_value(whole) >= 0,
                ;
            }
            return None;
        },
    };
    let flen = frac.unicode_len();
    let mut fval: u64 = 0;
    let mut mult: u64 = 1;
    let mut j: usize = 0;
    proof {
        assert(pad.subrange(0, 0) =~= Seq::<char>::empty());
    }
    while j < k
        invariant
            k <= 9,
            j <= k,
            flen == fr.len(),
            frac@ == fr,
            all_digits(fr),
            pad == padded(fr, k as nat),
            fval as int == digits_value(pad.subrange(0, j as int)),
            fval < mult,
            mult as nat == pow10(j as nat),
            mult <= 1_000_000_000,
        decreases k - j,
    {
        let d: u64 = if j < flen {
            (frac.get_char(j) as u32 - '0' as u32) as u64
        } else {
            0
        };
        let ghost pre = pad.subrange(0, j as int + 1);
        proof {
            assert(pre.drop_last() =~= pad.subrange(0, j as int));
            assert(pre.last() == pad[j as int]);
            if j < flen {
                assert(is_digit(fr[j as int]));
            }
            lemma_pow10_bounds((j + 1) as nat);
            assert(fval * 10 + d < mult * 10) by (nonlinear_arith)
                requires
                    fval < mult,
                    d <= 9,
            ;
        }
        fval = fval * 10 + d;
        mult = mult * 10;
        j += 1;
    }
    proof {
        assert(pad.subrange(0, k as int) =~= pad);
        assert(ipart * mult <= 2147483647 * 1_000_000_000) by (nonlinear_arith)
            requires
                ipart <= 2147483647,
                mult <= 1_000_000_000,
        ;
    }
    let total = ipart * mult + fval;
    if total <= 2147483647 {
        Some(total as i32)
    } else {
        None
    }
}

} // verus!
