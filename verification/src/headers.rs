//! Header values as the request handlers see them, media types, and the
//! `Accept` header (a comma-separated list of media types).
use crate::text::{
    eq_ignore_ascii_case, is_whitespace, split_on, split_str, str_eq_ignore_ascii_case, trim, trim_start,
    trim_str,
};
use vstd::prelude::*;
use vstd::string::*;

verus! {

/// One request header as read from the request: absent, present but not
/// visible ASCII text, or present with its text.
#[derive(Debug, Clone)]
pub enum HeaderField {
    Absent,
    NotText,
    Text(String),
}

/// A parsed media type: its canonical text, type, subtype and parameters
/// (name, value), as the `mime` crate reads them.
#[derive(Debug, Clone)]
pub struct MediaType {
    pub text: String,
    pub type_: String,
    pub subtype: String,
    pub params: Vec<(String, String)>,
}

/// Plain view of a media type: text, type, subtype, parameters.
pub type MediaTypeView = (Seq<char>, Seq<char>, Seq<char>, Seq<(Seq<char>, Seq<char>)>);

pub open spec fn params_view(p: Seq<(String, String)>) -> Seq<(Seq<char>, Seq<char>)> {
    p.map_values(|e: (String, String)| (e.0@, e.1@))
}

impl View for MediaType {
    type V = MediaTypeView;

    open spec fn view(&self) -> MediaTypeView {
        (self.text@, self.type_@, self.subtype@, params_view(self.params@))
    }
}

/// What `mime::Mime::from_str` makes of a text, taken as plain values:
/// `None` when the crate refuses it.
pub uninterp spec fn mime_parse(text: Seq<char>) -> Option<MediaTypeView>;

/// `<mime::Mime as FromStr>::from_str`, with the result read into plain values.
///
/// Trusted: the contract only ties the result to `mime_parse` of the input;
/// the text is the crate's `Display` of the parsed value, the parameters are
/// those of `Mime::params` in order.
#[verifier::external_body]
fn parse_mime(text: &str) -> (r: Option<MediaType>)
    ensures
        match r {
            Some(m) => mime_parse(text@) == Some(m@),
            None => mime_parse(text@) is None,
        },
{
    match text.parse::<mime::Mime>() {
        Ok(m) => Some(MediaType {
            text: m.to_string(),
            type_: m.type_().as_str().to_string(),
            subtype: m.subtype().as_str().to_string(),
            params: m.params().map(|(n, v)| (n.as_str().to_string(), v.as_str().to_string())).collect(),
        }),
        Err(_) => None,
    }
}

impl MediaType {
    /// Parses a media type; `None` when it is malformed.
    pub fn parse(text: &str) -> (r: Option<MediaType>)
        ensures
            match r {
                Some(m) => mime_parse(text@) == Some(m@),
                None => mime_parse(text@) is None,
            },
    {
        parse_mime(text)
    }
}

/// The value of the first parameter named `name` (ignoring ASCII case).
pub open spec fn param_value(params: Seq<(Seq<char>, Seq<char>)>, name: Seq<char>) -> Option<
    Seq<char>,
>
    decreases params.len(),
{
    if params.len() == 0 {
        None
    } else if eq_ignore_ascii_case(params[0].0, name) {
        Some(params[0].1)
    } else {
        param_value(params.subrange(1, params.len() as int), name)
    }
}

proof fn lemma_param_value_skip(params: Seq<(Seq<char>, Seq<char>)>, name: Seq<char>, i: int)
    requires
        0 <= i <= params.len(),
        forall|k: int| 0 <= k < i ==> !eq_ignore_ascii_case(#[trigger] params[k].0, name),
    ensures
        param_value(params, name) == param_value(params.subrange(i, params.len() as int), name),
    decreases i,
{
    if i > 0 {
        let t = params.subrange(1, params.len() as int);
        assert forall|k: int| 0 <= k < i - 1 implies !eq_ignore_ascii_case(
            #[trigger] t[k].0,
            name,
        ) by {
            assert(t[k] == params[k + 1]);
        }
        lemma_param_value_skip(t, name, i - 1);
        assert(t.subrange(i - 1, t.len() as int) =~= params.subrange(i, params.len() as int));
    } else {
        assert(params.subrange(0, params.len() as int) =~= params);
    }
}

/// `Mime::get_param`: the value of the first parameter called `name`.
pub fn get_param(m: &MediaType, name: &str) -> (r: Option<String>)
    ensures
        match r {
            Some(v) => param_value(m@.3, name@) == Some(v@),
            None => param_value(m@.3, name@) is None,
        },
{
    let n = m.params.len();
    let mut i: usize = 0;
    while i < n
        invariant
            n == m.params@.len(),
            0 <= i <= n,
            forall|k: int| 0 <= k < i ==> !eq_ignore_ascii_case(#[trigger] m@.3[k].0, name@),
        decreases n - i,
    {
        let p = &m.params[i];
        if str_eq_ignore_ascii_case(p.0.as_str(), name) {
            proof {
                lemma_param_value_skip(m@.3, name@, i as int);
                assert(m@.3.subrange(i as int, n as int)[0] == m@.3[i as int]);
            }
            return Some(p.1.clone());
        }
        i = i + 1;
    }
    proof {
        lemma_param_value_skip(m@.3, name@, n as int);
    }
    None
}

/// The non-empty trimmed pieces, in order.
pub open spec fn nonempty_trimmed(pieces: Seq<Seq<char>>) -> Seq<Seq<char>>
    decreases pieces.len(),
{
    if pieces.len() == 0 {
        Seq::<Seq<char>>::empty()
    } else {
        let rest = nonempty_trimmed(pieces.drop_last());
        let t = trim(pieces.last());
        if t.len() == 0 {
            rest
        } else {
            rest.push(t)
        }
    }
}

/// The media-type texts listed by a sequence of `Accept` header values:
/// each value split at commas, pieces trimmed, empty pieces dropped.
pub open spec fn accept_items(vals: Seq<Seq<char>>) -> Seq<Seq<char>>
    decreases vals.len(),
{
    if vals.len() == 0 {
        Seq::<Seq<char>>::empty()
    } else {
        accept_items(vals.drop_last()) + nonempty_trimmed(split_on(vals.last(), ','))
    }
}

/// Whether every header value is text.
pub open spec fn all_text(vals: Seq<Option<Seq<char>>>) -> bool {
    forall|i: int| 0 <= i < vals.len() ==> (#[trigger] vals[i]) is Some
}

pub open spec fn texts_of(vals: Seq<Option<Seq<char>>>) -> Seq<Seq<char>> {
    vals.map_values(|v: Option<Seq<char>>| v->Some_0)
}

/// What the `Accept` header decodes to: every value must be text, every
/// listed media type must parse, and at least one must be listed.
pub open spec fn accept_decode(vals: Seq<Option<Seq<char>>>) -> Option<Seq<MediaTypeView>> {
    if !all_text(vals) {
        None
    } else {
        let items = accept_items(texts_of(vals));
        if items.len() > 0 && (forall|k: int|
            0 <= k < items.len() ==> (#[trigger] mime_parse(items[k])) is Some) {
            Some(items.map_values(|t: Seq<char>| mime_parse(t)->Some_0))
        } else {
            None
        }
    }
}

/// `parts` joined with `sep` between consecutive parts.
pub open spec fn join(parts: Seq<Seq<char>>, sep: Seq<char>) -> Seq<char>
    decreases parts.len(),
{
    if parts.len() == 0 {
        Seq::<char>::empty()
    } else if parts.len() == 1 {
        parts[0]
    } else {
        join(parts.drop_last(), sep) + sep + parts.last()
    }
}

/// A character that a header value may hold (`HeaderValue::from_str`
/// accepts a text exactly when all its bytes are tab or at least 32 and not
/// 127; characters above ASCII encode to bytes of 128 and up).
pub open spec fn header_value_char(c: char) -> bool {
    c == '\t' || ((c as u32) >= 32 && (c as u32) != 127)
}

/// The text of each header value, `None` for one that is not text.
pub open spec fn fields_view(values: Seq<Option<String>>) -> Seq<Option<Seq<char>>> {
    values.map_values(|v: Option<String>| field_view(v))
}

pub open spec fn field_view(v: Option<String>) -> Option<Seq<char>> {
    match v {
        Some(s) => Some(s@),
        None => None,
    }
}

/// The `Accept` header: the media types a client accepts, in its order of
/// listing.
#[derive(Debug, Clone)]
pub struct Accept(pub Vec<MediaType>);

proof fn lemma_nonempty_trimmed_prefix(p: Seq<Seq<char>>, j: int)
    requires
        0 <= j <= p.len(),
    ensures
        nonempty_trimmed(p.subrange(0, j)).len() <= nonempty_trimmed(p).len(),
        nonempty_trimmed(p).subrange(0, nonempty_trimmed(p.subrange(0, j)).len() as int)
            == nonempty_trimmed(p.subrange(0, j)),
    decreases p.len() - j,
{
    if j < p.len() {
        lemma_nonempty_trimmed_prefix(p.drop_last(), j);
        assert(p.drop_last().subrange(0, j) =~= p.subrange(0, j));
        let a = nonempty_trimmed(p.subrange(0, j));
        let b = nonempty_trimmed(p.drop_last());
        assert(b.subrange(0, a.len() as int) == a);
        let c = nonempty_trimmed(p);
        if trim(p.last()).len() == 0 {
            assert(c == b);
        } else {
            assert(c == b.push(trim(p.last())));
            assert(c.subrange(0, a.len() as int) =~= b.subrange(0, a.len() as int));
        }
    } else {
        assert(p.subrange(0, j) =~= p);
        assert(nonempty_trimmed(p).subrange(0, nonempty_trimmed(p).len() as int)
            =~= nonempty_trimmed(p));
    }
}

proof fn lemma_accept_items_prefix(v: Seq<Seq<char>>, i: int)
    requires
        0 <= i <= v.len(),
    ensures
        accept_items(v.subrange(0, i)).len() <= accept_items(v).len(),
        accept_items(v).subrange(0, accept_items(v.subrange(0, i)).len() as int) == accept_items(
            v.subrange(0, i),
        ),
    decreases v.len() - i,
{
    if i < v.len() {
        lemma_accept_items_prefix(v.drop_last(), i);
        assert(v.drop_last().subrange(0, i) =~= v.subrange(0, i));
        let a = accept_items(v.subrange(0, i));
        let b = accept_items(v.drop_last());
        let c = accept_items(v);
        assert(c == b + nonempty_trimmed(split_on(v.last(), ',')));
        assert(c.subrange(0, a.len() as int) =~= b.subrange(0, a.len() as int));
    } else {
        assert(v.subrange(0, i) =~= v);
        assert(accept_items(v).subrange(0, accept_items(v).len() as int) =~= accept_items(v));
    }
}

proof fn lemma_accept_items_step(v: Seq<Seq<char>>, i: int)
    requires
        0 <= i < v.len(),
    ensures
        accept_items(v.subrange(0, i + 1)) == accept_items(v.subrange(0, i)) + nonempty_trimmed(
            split_on(v[i], ','),
        ),
{
    let t = v.subrange(0, i + 1);
    assert(t.drop_last() =~= v.subrange(0, i));
}

proof fn lemma_nonempty_trimmed_step(p: Seq<Seq<char>>, j: int)
    requires
        0 <= j < p.len(),
    ensures
        nonempty_trimmed(p.subrange(0, j + 1)) == (if trim(p[j]).len() == 0 {
            nonempty_trimmed(p.subrange(0, j))
        } else {
            nonempty_trimmed(p.subrange(0, j)).push(trim(p[j]))
        }),
{
    let t = p.subrange(0, j + 1);
    assert(t.drop_last() =~= p.subrange(0, j));
}

proof fn lemma_split_on_nonempty(s: Seq<char>, sep: char)
    ensures
        split_on(s, sep).len() >= 1,
    decreases s.len(),
{
    if s.len() > 0 {
        lemma_split_on_nonempty(s.drop_last(), sep);
    }
}

/// Appending text without a separator extends the last piece.
proof fn lemma_split_append_plain(a: Seq<char>, b: Seq<char>, sep: char)
    requires
        !b.contains(sep),
    ensures
        split_on(a + b, sep) == split_on(a, sep).update(
            split_on(a, sep).len() - 1,
            split_on(a, sep).last() + b,
        ),
    decreases b.len(),
{
    lemma_split_on_nonempty(a, sep);
    let sa = split_on(a, sep);
    if b.len() == 0 {
        assert(a + b =~= a);
        assert(sa.last() + b =~= sa.last());
        assert(sa.update(sa.len() - 1, sa.last()) =~= sa);
    } else {
        let bd = b.drop_last();
        assert(!bd.contains(sep)) by {
            if bd.contains(sep) {
                let k = choose|k: int| 0 <= k < bd.len() && bd[k] == sep;
                assert(b[k] == sep);
            }
        }
        assert(b.last() != sep) by {
            assert(b[b.len() - 1] == b.last());
        }
        lemma_split_append_plain(a, bd, sep);
        assert((a + b).drop_last() =~= a + bd);
        assert((a + b).last() == b.last());
        let rest = split_on(a + bd, sep);
        assert(rest.last() == sa.last() + bd);
        assert(rest.last().push(b.last()) =~= sa.last() + b);
        assert(rest.update(rest.len() - 1, rest.last().push(b.last())) =~= sa.update(
            sa.len() - 1,
            sa.last() + b,
        ));
    }
}

/// A separator followed by text without one starts a new piece.
proof fn lemma_split_append_piece(a: Seq<char>, b: Seq<char>, sep: char)
    requires
        !b.contains(sep),
    ensures
        split_on(a + seq![sep] + b, sep) == split_on(a, sep).push(b),
{
    let a1 = a + seq![sep];
    assert(a1.drop_last() =~= a);
    assert(a1.last() == sep);
    assert(split_on(a1, sep) == split_on(a, sep).push(Seq::<char>::empty()));
    lemma_split_append_plain(a1, b, sep);
    let sa1 = split_on(a1, sep);
    assert(sa1.last() + b =~= b);
    assert(sa1.update(sa1.len() - 1, b) =~= split_on(a, sep).push(b));
}

/// The pieces of `join(ts, ", ")` split at commas: the first text, then each
/// further text behind one space.
spec fn joined_pieces(ts: Seq<Seq<char>>) -> Seq<Seq<char>> {
    Seq::new(ts.len(), |i: int| if i == 0 { ts[0] } else { " "@ + ts[i] })
}

proof fn lemma_split_join(ts: Seq<Seq<char>>)
    requires
        ts.len() >= 1,
        forall|k: int| 0 <= k < ts.len() ==> !(#[trigger] ts[k]).contains(','),
    ensures
        split_on(join(ts, ", "@), ',') == joined_pieces(ts),
    decreases ts.len(),
{
    reveal_strlit(", ");
    reveal_strlit(" ");
    if ts.len() == 1 {
        lemma_split_append_plain(Seq::<char>::empty(), ts[0], ',');
        assert(Seq::<char>::empty() + ts[0] =~= ts[0]);
        assert(split_on(Seq::<char>::empty(), ',') =~= seq![Seq::<char>::empty()]);
        assert(Seq::<char>::empty() + ts[0] =~= ts[0]);
        assert(split_on(ts[0], ',') =~= joined_pieces(ts));
    } else {
        let dl = ts.drop_last();
        assert forall|k: int| 0 <= k < dl.len() implies !(#[trigger] dl[k]).contains(',') by {
            assert(dl[k] == ts[k]);
        }
        lemma_split_join(dl);
        let last = " "@ + ts.last();
        assert(!last.contains(',')) by {
            assert(!ts[ts.len() - 1].contains(','));
            if last.contains(',') {
                let k = choose|k: int| 0 <= k < last.len() && last[k] == ',';
                if k == 0 {
                    assert(last[0] == ' ');
                } else {
                    assert(last[k] == ts.last()[k - 1]);
                }
            }
        }
        lemma_split_append_piece(join(dl, ", "@), last, ',');
        assert(join(ts, ", "@) == join(dl, ", "@) + ", "@ + ts.last());
        assert(join(dl, ", "@) + ", "@ + ts.last() =~= join(dl, ", "@) + seq![','] + last);
        assert(joined_pieces(dl).push(last) =~= joined_pieces(ts));
    }
}

proof fn lemma_nonempty_trimmed_pieces(ts: Seq<Seq<char>>)
    requires
        ts.len() >= 1,
        forall|k: int| 0 <= k < ts.len() ==> (#[trigger] ts[k]).len() > 0 && trim(ts[k]) == ts[k],
    ensures
        nonempty_trimmed(joined_pieces(ts)) == ts,
    decreases ts.len(),
{
    reveal_strlit(" ");
    let p = joined_pieces(ts);
    let t = ts.last();
    assert(ts[ts.len() - 1] == t);
    assert(trim(p.last()) == t) by {
        if ts.len() > 1 {
            assert(p.last() == " "@ + t);
            assert(is_whitespace(' '));
            assert((" "@ + t)[0] == ' ');
            assert((" "@ + t).subrange(1, (" "@ + t).len() as int) =~= t);
            assert(trim_start(" "@ + t) == trim_start(t));
        }
    }
    if ts.len() == 1 {
        assert(p.drop_last() =~= Seq::<Seq<char>>::empty());
        assert(nonempty_trimmed(Seq::<Seq<char>>::empty()).push(t) =~= ts);
    } else {
        let dl = ts.drop_last();
        assert forall|k: int| 0 <= k < dl.len() implies (#[trigger] dl[k]).len() > 0 && trim(dl[k]) == dl[k] by {
            assert(dl[k] == ts[k]);
        }
        lemma_nonempty_trimmed_pieces(dl);
        assert(p.drop_last() =~= joined_pieces(dl));
        assert(dl.push(t) =~= ts);
    }
}

/// Law: encoding an `Accept` header and decoding the value gives back its
/// media types, in order, whenever each media type's text is non-empty,
/// holds no comma or surrounding whitespace, and is read back by the `mime`
/// crate as that media type.
pub proof fn law_accept_encode_then_decode(items: Seq<MediaTypeView>)
    requires
        items.len() > 0,
        forall|k: int|
            0 <= k < items.len() ==> {
                let t = (#[trigger] items[k]).0;
                &&& t.len() > 0
                &&& !t.contains(',')
                &&& trim(t) == t
                &&& mime_parse(t) == Some(items[k])
            },
    ensures
        accept_decode(seq![Some(join(items.map_values(|m: MediaTypeView| m.0), ", "@))]) == Some(items),
{
    let ts = items.map_values(|m: MediaTypeView| m.0);
    assert forall|k: int| 0 <= k < ts.len() implies !(#[trigger] ts[k]).contains(',') && ts[k].len() > 0
        && trim(ts[k]) == ts[k] by {
        assert(ts[k] == items[k].0);
    }
    lemma_split_join(ts);
    lemma_nonempty_trimmed_pieces(ts);
    let vals = seq![Some(join(ts, ", "@))];
    assert(all_text(vals));
    assert(texts_of(vals) =~= seq![join(ts, ", "@)]);
    let tv = texts_of(vals);
    assert(tv.drop_last() =~= Seq::<Seq<char>>::empty());
    assert(accept_items(tv) =~= accept_items(Seq::<Seq<char>>::empty()) + ts);
    assert(accept_items(tv) =~= ts);
    assert forall|k: int| 0 <= k < ts.len() implies (#[trigger] mime_parse(ts[k])) is Some by {
        assert(ts[k] == items[k].0);
    }
    assert(ts.map_values(|t: Seq<char>| mime_parse(t)->Some_0) =~= items);
}

impl Accept {
    /// Decodes the `Accept` header from its values (`None` for a value that
    /// is not visible ASCII text); `None` when the header is invalid.
    pub fn decode(values: &Vec<Option<String>>) -> (r: Option<Accept>)
        ensures
            match r {
                Some(a) => accept_decode(fields_view(values@)) == Some(a.0@.map_values(|m: MediaType| m@)),
                None => accept_decode(fields_view(values@)) is None,
            },
    {
        let ghost vals = fields_view(values@);
        let n = values.len();
        let mut i: usize = 0;
        while i < n
            invariant
                n == values@.len(),
                vals.len() == n,
                vals == fields_view(values@),
                0 <= i <= n,
                forall|k: int| 0 <= k < i ==> (#[trigger] vals[k]) is Some,
            decreases n - i,
        {
            if values[i].is_none() {
                proof {
                    assert(vals[i as int] is None);
                }
                return None;
            }
            i = i + 1;
        }
        assert(all_text(vals));
        let ghost texts = texts_of(vals);
        let mut out: Vec<MediaType> = Vec::new();
        let mut i: usize = 0;
        while i < n
            invariant
                n == values@.len(),
                vals.len() == n,
                all_text(vals),
                texts == texts_of(vals),
                texts.len() == n,
                vals == fields_view(values@),
                0 <= i <= n,
                out@.map_values(|m: MediaType| m@) == accept_items(
                    texts.subrange(0, i as int),
                ).map_values(|t: Seq<char>| mime_parse(t)->Some_0),
                forall|k: int|
                    0 <= k < accept_items(texts.subrange(0, i as int)).len() ==> (
                    #[trigger] mime_parse(accept_items(texts.subrange(0, i as int))[k])) is Some,
            decreases n - i,
        {
            proof {
                assert(vals[i as int] is Some);
                assert(texts[i as int] == vals[i as int]->Some_0);
            }
            let text: &String = match &values[i] {
                Some(s) => {
                    proof {
                        assert(vals[i as int] == field_view(values@[i as int]));
                        assert(texts[i as int] == s@);
                    }
                    s
                },
                None => {
                    proof {
                        assert(vals[i as int] == field_view(values@[i as int]));
                    }
                    return None;
                },
            };
            let pieces = split_str(text.as_str(), ',');
            let ghost ps = split_on(texts[i as int], ',');
            let ghost before = accept_items(texts.subrange(0, i as int));
            let m = pieces.len();
            let mut j: usize = 0;
            while j < m
                invariant
                    m == pieces@.len(),
                    ps.len() == m,
                    forall|k: int| 0 <= k < m ==> (#[trigger] pieces@[k])@ == ps[k],
                    0 <= j <= m,
                    out@.map_values(|mt: MediaType| mt@) == (before + nonempty_trimmed(
                        ps.subrange(0, j as int),
                    )).map_values(|t: Seq<char>| mime_parse(t)->Some_0),
                    forall|k: int|
                        0 <= k < (before + nonempty_trimmed(ps.subrange(0, j as int))).len() ==> (
                        #[trigger] mime_parse(
                            (before + nonempty_trimmed(ps.subrange(0, j as int)))[k],
                        )) is Some,
                    texts == texts_of(vals),
                    vals == fields_view(values@),
                    all_text(vals),
                    n == values@.len(),
                    texts.len() == n,
                    i < n,
                    before == accept_items(texts.subrange(0, i as int)),
                    ps == split_on(texts[i as int], ','),
                decreases m - j,
            {
                let piece = trim_str(pieces[j].as_str());
                proof {
                    lemma_nonempty_trimmed_step(ps, j as int);
                }
                if piece.unicode_len() == 0 {
                    j = j + 1;
                    continue;
                }
                match MediaType::parse(piece.as_str()) {
                    Some(mt) => {
                        let ghost old_out = out@;
                        out.push(mt);
                        proof {
                            assert(out@ =~= old_out.push(mt));
                            assert(out@.map_values(|mt: MediaType| mt@) =~= old_out.map_values(
                                |mt: MediaType| mt@,
                            ).push(mt@));
                            let items_old = before + nonempty_trimmed(ps.subrange(0, j as int));
                            let items_new = before + nonempty_trimmed(ps.subrange(0, j + 1));
                            assert(items_new =~= items_old.push(piece@));
                            assert(out@.map_values(|mt: MediaType| mt@) =~= items_new.map_values(
                                |t: Seq<char>| mime_parse(t)->Some_0,
                            ));
                        }
                        j = j + 1;
                    },
                    None => {
                        proof {
                            let items_new = before + nonempty_trimmed(ps.subrange(0, j + 1));
                            let k = items_new.len() - 1;
                            assert(items_new[k] == piece@);
                            lemma_nonempty_trimmed_prefix(ps, j + 1);
                            assert(ps.subrange(0, m as int) =~= ps);
                            lemma_accept_items_step(texts, i as int);
                            lemma_accept_items_prefix(texts, i + 1);
                            assert(texts.subrange(0, n as int) =~= texts);
                            let all = accept_items(texts);
                            let mid = accept_items(texts.subrange(0, i + 1));
                            assert(mid == before + nonempty_trimmed(ps));
                            assert(all.subrange(0, mid.len() as int) == mid);
                            assert(mid[k] == items_new[k]);
                            assert(all[k] == mid[k]);
                            assert(mime_parse(all[k]) is None);
                        }
                        return None;
                    },
                }
            }
            proof {
                assert(ps.subrange(0, m as int) =~= ps);
                lemma_accept_items_step(texts, i as int);
            }
            i = i + 1;
        }
        proof {
            assert(texts.subrange(0, n as int) =~= texts);
        }
        if out.len() == 0 {
            return None;
        }
        Some(Accept(out))
    }

    /// The header value that lists the media types, separated by `", "`;
    /// `None` when the joined text is not a valid header value.
    pub fn encode(&self) -> (r: Option<String>)
        ensures
            ({
                let joined = join(self.0@.map_values(|m: MediaType| m@.0), ", "@);
                match r {
                    Some(s) => s@ == joined && (forall|k: int|
                        0 <= k < joined.len() ==> header_value_char(#[trigger] joined[k])),
                    None => exists|k: int|
                        0 <= k < joined.len() && !header_value_char(#[trigger] joined[k]),
                }
            }),
    {
        let ghost texts = self.0@.map_values(|m: MediaType| m@.0);
        let n = self.0.len();
        let mut joined = String::new();
        let mut i: usize = 0;
        while i < n
            invariant
                n == self.0@.len(),
                texts == self.0@.map_values(|m: MediaType| m@.0),
                0 <= i <= n,
                joined@ == join(texts.subrange(0, i as int), ", "@),
            decreases n - i,
        {
            proof {
                let t = texts.subrange(0, i + 1);
                assert(t.drop_last() =~= texts.subrange(0, i as int));
                if i == 0 {
                    assert(t.len() == 1);
                    assert(t[0] == texts[0]);
                }
            }
            if i > 0 {
                joined = joined.concat(", ");
            }
            joined = joined.concat(self.0[i].text.as_str());
            proof {
                if i == 0 {
                    assert(joined@ =~= texts[0]);
                }
            }
            i = i + 1;
        }
        proof {
            assert(texts.subrange(0, n as int) =~= texts);
        }
        let len = joined.unicode_len();
        let mut k: usize = 0;
        while k < len
            invariant
                len == joined@.len(),
                joined@ == join(texts, ", "@),
                texts == self.0@.map_values(|m: MediaType| m@.0),
                0 <= k <= len,
                forall|q: int| 0 <= q < k ==> header_value_char(#[trigger] joined@[q]),
            decreases len - k,
        {
            let c = joined.get_char(k);
            if !(c == '\t' || ((c as u32) >= 32 && (c as u32) != 127)) {
                proof {
                    assert(!header_value_char(joined@[k as int]));
                }
                return None;
            }
            k = k + 1;
        }
        Some(joined)
    }
}

} // verus!
