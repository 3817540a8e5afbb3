//! The JSON Feed document model, read from a JSON value the way serde's
//! derived `Deserialize` reads it: members in document order, unknown members
//! ignored, a repeated member refused, `null` as an absent optional, a missing
//! list as empty, and a struct also accepted as an array of its fields.
//! Errors carry serde's wording.

use vstd::prelude::*;
use crate::json::{JsonValue, same_text};
use crate::text::{debug_str, decimal, decimal_text, str_debug};

verus! {

// ---------------------------------------------------------------- messages

/// How serde names a value that has the wrong type.
pub open spec fn unexpected(v: JsonValue) -> Seq<char> {
    match v {
        JsonValue::Null => "unit value"@,
        JsonValue::Bool(b) => if b { "boolean `true`"@ } else { "boolean `false`"@ },
        JsonValue::Number(n) => n.unexpected@,
        JsonValue::String(s) => "string "@ + str_debug(s@),
        JsonValue::Array(_) => "sequence"@,
        JsonValue::Object(_) => "map"@,
    }
}

pub open spec fn invalid_type(v: JsonValue, expected: Seq<char>) -> Seq<char> {
    "invalid type: "@ + unexpected(v) + ", expected "@ + expected
}

pub open spec fn invalid_length(n: nat, expected: Seq<char>) -> Seq<char> {
    "invalid length "@ + decimal(n) + ", expected "@ + expected
}

pub open spec fn missing_field(name: Seq<char>) -> Seq<char> {
    "missing field `"@ + name + "`"@
}

pub open spec fn duplicate_field(name: Seq<char>) -> Seq<char> {
    "duplicate field `"@ + name + "`"@
}

fn unexpected_text(v: &JsonValue) -> (res: String)
    ensures
        res@ == unexpected(*v),
{
    match v {
        JsonValue::Null => "unit value".to_owned(),
        JsonValue::Bool(b) => if *b { "boolean `true`".to_owned() } else { "boolean `false`".to_owned() },
        JsonValue::Number(n) => n.unexpected.clone(),
        JsonValue::String(s) => {
            let mut t = "string ".to_owned();
            let d = debug_str(s.as_str());
            t.append(d.as_str());
            t
        },
        JsonValue::Array(_) => "sequence".to_owned(),
        JsonValue::Object(_) => "map".to_owned(),
    }
}

fn invalid_type_text(v: &JsonValue, expected: &str) -> (res: String)
    ensures
        res@ == invalid_type(*v, expected@),
{
    let mut t = "invalid type: ".to_owned();
    let u = unexpected_text(v);
    t.append(u.as_str());
    t.append(", expected ");
    t.append(expected);
    t
}

fn invalid_length_text(n: usize, expected: &str) -> (res: String)
    ensures
        res@ == invalid_length(n as nat, expected@),
{
    let mut t = "invalid length ".to_owned();
    let d = decimal_text(n as u64);
    t.append(d.as_str());
    t.append(", expected ");
    t.append(expected);
    t
}

fn field_text(prefix: &str, name: &str) -> (res: String)
    ensures
        res@ == prefix@ + name@ + "`"@,
{
    let mut t = prefix.to_owned();
    t.append(name);
    t.append("`");
    t
}

// ---------------------------------------------------------------- scalars

pub open spec fn dec_string(v: JsonValue) -> Result<Seq<char>, Seq<char>> {
    match v {
        JsonValue::String(s) => Ok(s@),
        _ => Err(invalid_type(v, "a string"@)),
    }
}

pub open spec fn dec_opt_string(v: JsonValue) -> Result<Option<Seq<char>>, Seq<char>> {
    match v {
        JsonValue::Null => Ok(None),
        JsonValue::String(s) => Ok(Some(s@)),
        _ => Err(invalid_type(v, "a string"@)),
    }
}

pub open spec fn strings_of(a: Seq<JsonValue>) -> Result<Seq<Seq<char>>, Seq<char>>
    decreases a.len(),
{
    if a.len() == 0 {
        Ok(Seq::<Seq<char>>::empty())
    } else {
        match strings_of(a.drop_last()) {
            Err(e) => Err(e),
            Ok(init) => match dec_string(a.last()) {
                Ok(s) => Ok(init.push(s)),
                Err(e) => Err(e),
            },
        }
    }
}

/// A list of strings decodes as their texts.
pub proof fn lemma_strings_of_all_strings(a: Seq<JsonValue>)
    requires
        crate::json::all_strings(a),
    ensures
        strings_of(a) == Ok::<Seq<Seq<char>>, Seq<char>>(crate::json::string_texts(a)),
    decreases a.len(),
{
    if a.len() > 0 {
        assert(crate::json::all_strings(a.drop_last())) by {
            assert forall|i: int| 0 <= i < a.drop_last().len() implies #[trigger] a.drop_last()[i] is String by {
                assert(a.drop_last()[i] == a[i]);
            }
        }
        lemma_strings_of_all_strings(a.drop_last());
        assert(a[a.len() - 1] is String);
        assert(crate::json::string_texts(a) =~= crate::json::string_texts(a.drop_last()).push(
            crate::json::string_texts(a)[a.len() - 1],
        ));
    } else {
        assert(crate::json::string_texts(a) =~= Seq::<Seq<char>>::empty());
    }
}

pub open spec fn dec_strings(v: JsonValue) -> Result<Seq<Seq<char>>, Seq<char>> {
    match v {
        JsonValue::Array(a) => strings_of(a@),
        _ => Err(invalid_type(v, "a sequence"@)),
    }
}

pub open spec fn view_str(r: Result<String, String>) -> Result<Seq<char>, Seq<char>> {
    match r {
        Ok(s) => Ok(s@),
        Err(e) => Err(e@),
    }
}

pub open spec fn view_opt(o: Option<String>) -> Option<Seq<char>> {
    match o {
        Some(s) => Some(s@),
        None => None,
    }
}

pub open spec fn view_opt_str(r: Result<Option<String>, String>) -> Result<Option<Seq<char>>, Seq<char>> {
    match r {
        Ok(o) => Ok(view_opt(o)),
        Err(e) => Err(e@),
    }
}

pub open spec fn view_strings(v: Seq<String>) -> Seq<Seq<char>> {
    v.map_values(|s: String| s@)
}

fn decode_string(v: &JsonValue) -> (res: Result<String, String>)
    ensures
        view_str(res) == dec_string(*v),
{
    match v {
        JsonValue::String(s) => Ok(s.clone()),
        _ => Err(invalid_type_text(v, "a string")),
    }
}

fn decode_opt_string(v: &JsonValue) -> (res: Result<Option<String>, String>)
    ensures
        view_opt_str(res) == dec_opt_string(*v),
{
    match v {
        JsonValue::Null => Ok(None),
        JsonValue::String(s) => Ok(Some(s.clone())),
        _ => Err(invalid_type_text(v, "a string")),
    }
}

pub fn decode_strings(v: &JsonValue) -> (res: Result<Vec<String>, String>)
    ensures
        match res {
            Ok(out) => dec_strings(*v) == Ok::<Seq<Seq<char>>, Seq<char>>(view_strings(out@)),
            Err(e) => dec_strings(*v) == Err::<Seq<Seq<char>>, Seq<char>>(e@),
        },
{
    match v {
        JsonValue::Array(a) => {
            let mut out: Vec<String> = Vec::new();
            let mut i: usize = 0;
            assert(a@.take(0) =~= Seq::<JsonValue>::empty());
            assert(view_strings(out@) =~= Seq::<Seq<char>>::empty());
            while i < a.len()
                invariant
                    i <= a@.len(),
                    dec_strings(*v) == strings_of(a@),
                    strings_of(a@.take(i as int)) == Ok::<Seq<Seq<char>>, Seq<char>>(view_strings(out@)),
                decreases a.len() - i,
            {
                assert(a@.take(i + 1).drop_last() == a@.take(i as int));
                let s = decode_string(&a[i]);
                match s {
                    Ok(s) => {
                        let ghost prev = out@;
                        let ghost sv = s@;
                        out.push(s);
                        assert(view_strings(out@) =~= view_strings(prev).push(sv));
                    },
                    Err(e) => {
                        assert(strings_of(a@.take(i + 1)) == Err::<Seq<Seq<char>>, Seq<char>>(e@));
                        proof { lemma_strings_of_err_prefix(a@, i as int + 1); }
                        return Err(e);
                    },
                }
                i = i + 1;
            }
            assert(a@.take(a@.len() as int) == a@);
            Ok(out)
        },
        _ => Err(invalid_type_text(v, "a sequence")),
    }
}

proof fn lemma_strings_of_err_prefix(a: Seq<JsonValue>, n: int)
    requires
        0 <= n <= a.len(),
        strings_of(a.take(n)) is Err,
    ensures
        strings_of(a) == strings_of(a.take(n)),
    decreases a.len() - n,
{
    if n < a.len() {
        assert(a.take(n + 1).drop_last() == a.take(n));
        lemma_strings_of_err_prefix(a, n + 1);
    } else {
        assert(a.take(n) == a);
    }
}


// ---------------------------------------------------------------- folds

/// Runs `step` over `xs` from the first element on, stopping at the first
/// error.
pub open spec fn fold_ok<A, S>(xs: Seq<A>, init: S, step: spec_fn(S, A) -> Result<S, Seq<char>>) -> Result<S, Seq<char>>
    decreases xs.len(),
{
    if xs.len() == 0 {
        Ok(init)
    } else {
        match fold_ok(xs.drop_last(), init, step) {
            Err(e) => Err(e),
            Ok(s) => step(s, xs.last()),
        }
    }
}

proof fn lemma_fold_err<A, S>(xs: Seq<A>, init: S, step: spec_fn(S, A) -> Result<S, Seq<char>>, n: int)
    requires
        0 <= n <= xs.len(),
        fold_ok(xs.take(n), init, step) is Err,
    ensures
        fold_ok(xs, init, step) == fold_ok(xs.take(n), init, step),
    decreases xs.len() - n,
{
    if n < xs.len() {
        assert(xs.take(n + 1).drop_last() == xs.take(n));
        lemma_fold_err(xs, init, step, n + 1);
    } else {
        assert(xs.take(n) == xs);
    }
}

proof fn lemma_fold_step<A, S>(xs: Seq<A>, init: S, step: spec_fn(S, A) -> Result<S, Seq<char>>, n: int)
    requires
        0 <= n < xs.len(),
    ensures
        fold_ok(xs.take(n + 1), init, step) == (match fold_ok(xs.take(n), init, step) {
            Err(e) => Err(e),
            Ok(s) => step(s, xs[n]),
        }),
{
    assert(xs.take(n + 1).drop_last() == xs.take(n));
    assert(xs.take(n + 1).last() == xs[n]);
}

// ---------------------------------------------------------------- authors

/// A JSON Feed author.
pub ghost struct AuthorFields {
    pub name: Option<Seq<char>>,
}

/// A JSON Feed author as read.
#[derive(Debug)]
pub struct JsonAuthor {
    pub name: Option<String>,
}

pub open spec fn author_view(a: JsonAuthor) -> AuthorFields {
    AuthorFields { name: view_opt(a.name) }
}

pub open spec fn authors_view(v: Seq<JsonAuthor>) -> Seq<AuthorFields> {
    v.map_values(|a: JsonAuthor| author_view(a))
}

pub open spec fn author_step(slot: Option<Option<Seq<char>>>, e: (String, JsonValue)) -> Result<Option<Option<Seq<char>>>, Seq<char>> {
    if e.0@ == "name"@ {
        if slot is Some {
            Err(duplicate_field("name"@))
        } else {
            match dec_opt_string(e.1) {
                Ok(n) => Ok(Some(n)),
                Err(m) => Err(m),
            }
        }
    } else {
        Ok(slot)
    }
}

pub open spec fn author_step_fn() -> spec_fn(Option<Option<Seq<char>>>, (String, JsonValue)) -> Result<Option<Option<Seq<char>>>, Seq<char>> {
    |s: Option<Option<Seq<char>>>, e: (String, JsonValue)| author_step(s, e)
}

pub open spec fn dec_author(v: JsonValue) -> Result<AuthorFields, Seq<char>> {
    match v {
        JsonValue::Object(f) => match fold_ok(f@, None, author_step_fn()) {
            Err(m) => Err(m),
            Ok(slot) => Ok(AuthorFields { name: match slot { Some(n) => n, None => None } }),
        },
        JsonValue::Array(a) => if a@.len() == 0 {
            Err(invalid_length(0, "struct JsonAuthor with 1 element"@))
        } else {
            match dec_opt_string(a@[0]) {
                Err(m) => Err(m),
                Ok(n) => if a@.len() > 1 {
                    Err(invalid_length(a@.len(), "fewer elements in array"@))
                } else {
                    Ok(AuthorFields { name: n })
                },
            }
        },
        _ => Err(invalid_type(v, "struct JsonAuthor"@)),
    }
}

pub open spec fn dec_opt_author(v: JsonValue) -> Result<Option<AuthorFields>, Seq<char>> {
    match v {
        JsonValue::Null => Ok(None),
        _ => match dec_author(v) {
            Ok(a) => Ok(Some(a)),
            Err(m) => Err(m),
        },
    }
}

pub open spec fn authors_step(acc: Seq<AuthorFields>, v: JsonValue) -> Result<Seq<AuthorFields>, Seq<char>> {
    match dec_author(v) {
        Ok(a) => Ok(acc.push(a)),
        Err(m) => Err(m),
    }
}

pub open spec fn authors_step_fn() -> spec_fn(Seq<AuthorFields>, JsonValue) -> Result<Seq<AuthorFields>, Seq<char>> {
    |s: Seq<AuthorFields>, x: JsonValue| authors_step(s, x)
}

pub open spec fn dec_authors(v: JsonValue) -> Result<Seq<AuthorFields>, Seq<char>> {
    match v {
        JsonValue::Array(a) => fold_ok(a@, Seq::<AuthorFields>::empty(), authors_step_fn()),
        _ => Err(invalid_type(v, "a sequence"@)),
    }
}

pub open spec fn view_opt_slot(o: Option<Option<String>>) -> Option<Option<Seq<char>>> {
    match o {
        Some(x) => Some(view_opt(x)),
        None => None,
    }
}

fn decode_author(v: &JsonValue) -> (res: Result<JsonAuthor, String>)
    ensures
        match res {
            Ok(a) => dec_author(*v) == Ok::<AuthorFields, Seq<char>>(author_view(a)),
            Err(m) => dec_author(*v) == Err::<AuthorFields, Seq<char>>(m@),
        },
{
    match v {
        JsonValue::Object(f) => {
            let mut slot: Option<Option<String>> = None;
            let mut i: usize = 0;
            assert(f@.take(0) =~= Seq::<(String, JsonValue)>::empty());
            while i < f.len()
                invariant
                    i <= f@.len(),
                    dec_author(*v) == (match fold_ok(f@, None, author_step_fn()) {
                        Err(m) => Err(m),
                        Ok(slot) => Ok(AuthorFields { name: match slot { Some(n) => n, None => None } }),
                    }),
                    fold_ok(f@.take(i as int), None, author_step_fn()) == Ok::<Option<Option<Seq<char>>>, Seq<char>>(view_opt_slot(slot)),
                decreases f.len() - i,
            {
                proof {
                    lemma_fold_step(f@, None, author_step_fn(), i as int);
                    assert(author_step_fn()(view_opt_slot(slot), f@[i as int]) == author_step(view_opt_slot(slot), f@[i as int]));
                }
                if same_text(&f[i].0, "name") {
                    if slot.is_some() {
                        let m = field_text("duplicate field `", "name");
                        proof { lemma_fold_err(f@, None, author_step_fn(), i + 1); }
                        return Err(m);
                    }
                    match decode_opt_string(&f[i].1) {
                        Ok(n) => { slot = Some(n); },
                        Err(m) => {
                            proof { lemma_fold_err(f@, None, author_step_fn(), i + 1); }
                            return Err(m);
                        },
                    }
                }
                i = i + 1;
            }
            assert(f@.take(f@.len() as int) == f@);
            let name = match slot { Some(n) => n, None => None };
            Ok(JsonAuthor { name })
        },
        JsonValue::Array(a) => {
            if a.len() == 0 {
                return Err(invalid_length_text(0, "struct JsonAuthor with 1 element"));
            }
            match decode_opt_string(&a[0]) {
                Err(m) => Err(m),
                Ok(n) => if a.len() > 1 {
                    Err(invalid_length_text(a.len(), "fewer elements in array"))
                } else {
                    Ok(JsonAuthor { name: n })
                },
            }
        },
        _ => Err(invalid_type_text(v, "struct JsonAuthor")),
    }
}

fn decode_opt_author(v: &JsonValue) -> (res: Result<Option<JsonAuthor>, String>)
    ensures
        match res {
            Ok(Some(a)) => dec_opt_author(*v) == Ok::<Option<AuthorFields>, Seq<char>>(Some(author_view(a))),
            Ok(None) => dec_opt_author(*v) == Ok::<Option<AuthorFields>, Seq<char>>(None),
            Err(m) => dec_opt_author(*v) == Err::<Option<AuthorFields>, Seq<char>>(m@),
        },
{
    match v {
        JsonValue::Null => Ok(None),
        _ => match decode_author(v) {
            Ok(a) => Ok(Some(a)),
            Err(m) => Err(m),
        },
    }
}

fn decode_authors(v: &JsonValue) -> (res: Result<Vec<JsonAuthor>, String>)
    ensures
        match res {
            Ok(out) => dec_authors(*v) == Ok::<Seq<AuthorFields>, Seq<char>>(authors_view(out@)),
            Err(m) => dec_authors(*v) == Err::<Seq<AuthorFields>, Seq<char>>(m@),
        },
{
    match v {
        JsonValue::Array(a) => {
            let mut out: Vec<JsonAuthor> = Vec::new();
            let mut i: usize = 0;
            assert(a@.take(0) =~= Seq::<JsonValue>::empty());
            assert(authors_view(out@) =~= Seq::<AuthorFields>::empty());
            while i < a.len()
                invariant
                    i <= a@.len(),
                    dec_authors(*v) == fold_ok(a@, Seq::<AuthorFields>::empty(), authors_step_fn()),
                    fold_ok(a@.take(i as int), Seq::<AuthorFields>::empty(), authors_step_fn()) == Ok::<Seq<AuthorFields>, Seq<char>>(authors_view(out@)),
                decreases a.len() - i,
            {
                proof {
                    lemma_fold_step(a@, Seq::<AuthorFields>::empty(), authors_step_fn(), i as int);
                    assert(authors_step_fn()(authors_view(out@), a@[i as int]) == authors_step(authors_view(out@), a@[i as int]));
                }
                match decode_author(&a[i]) {
                    Ok(x) => {
                        let ghost prev = out@;
                        let ghost xv = author_view(x);
                        out.push(x);
                        assert(authors_view(out@) =~= authors_view(prev).push(xv));
                    },
                    Err(m) => {
                        proof { lemma_fold_err(a@, Seq::<AuthorFields>::empty(), authors_step_fn(), i + 1); }
                        return Err(m);
                    },
                }
                i = i + 1;
            }
            assert(a@.take(a@.len() as int) == a@);
            Ok(out)
        },
        _ => Err(invalid_type_text(v, "a sequence")),
    }
}


// ---------------------------------------------------------------- items

/// A JSON Feed item, field by field.
pub ghost struct ItemFields {
    pub id: Seq<char>,
    pub url: Option<Seq<char>>,
    pub title: Option<Seq<char>>,
    pub summary: Option<Seq<char>>,
    pub content_html: Option<Seq<char>>,
    pub content_text: Option<Seq<char>>,
    pub date_published: Option<Seq<char>>,
    pub date_modified: Option<Seq<char>>,
    pub tags: Seq<Seq<char>>,
    pub authors: Seq<AuthorFields>,
    pub author: Option<AuthorFields>,
}

/// A JSON Feed item as read.
#[derive(Debug)]
pub struct JsonFeedItem {
    pub id: String,
    pub url: Option<String>,
    pub title: Option<String>,
    pub summary: Option<String>,
    pub content_html: Option<String>,
    pub content_text: Option<String>,
    pub date_published: Option<String>,
    pub date_modified: Option<String>,
    pub tags: Vec<String>,
    pub authors: Vec<JsonAuthor>,
    pub author: Option<JsonAuthor>,
}

pub open spec fn view_opt_author(a: Option<JsonAuthor>) -> Option<AuthorFields> {
    match a {
        Some(a) => Some(author_view(a)),
        None => None,
    }
}

pub open spec fn item_view(i: JsonFeedItem) -> ItemFields {
    ItemFields {
        id: i.id@,
        url: view_opt(i.url),
        title: view_opt(i.title),
        summary: view_opt(i.summary),
        content_html: view_opt(i.content_html),
        content_text: view_opt(i.content_text),
        date_published: view_opt(i.date_published),
        date_modified: view_opt(i.date_modified),
        tags: view_strings(i.tags@),
        authors: authors_view(i.authors@),
        author: view_opt_author(i.author),
    }
}

pub open spec fn items_view(v: Seq<JsonFeedItem>) -> Seq<ItemFields> {
    v.map_values(|i: JsonFeedItem| item_view(i))
}

/// The fields of an item read so far; `opts` holds the seven optional texts
/// from `url` to `date_modified`.
pub ghost struct DraftV {
    pub id: Option<Seq<char>>,
    pub opts: Seq<Option<Option<Seq<char>>>>,
    pub tags: Option<Seq<Seq<char>>>,
    pub authors: Option<Seq<AuthorFields>>,
    pub author: Option<Option<AuthorFields>>,
}

pub open spec fn empty_draft() -> DraftV {
    DraftV {
        id: None,
        opts: seq![None, None, None, None, None, None, None],
        tags: None,
        authors: None,
        author: None,
    }
}

/// The position of an item member among the item's fields.
pub open spec fn item_field_index(k: Seq<char>) -> Option<int> {
    if k == "id"@ { Some(0) } else if k == "url"@ { Some(1) } else if k == "title"@ { Some(2) }
    else if k == "summary"@ { Some(3) } else if k == "content_html"@ { Some(4) }
    else if k == "content_text"@ { Some(5) } else if k == "date_published"@ { Some(6) }
    else if k == "date_modified"@ { Some(7) } else if k == "tags"@ { Some(8) }
    else if k == "authors"@ { Some(9) } else if k == "author"@ { Some(10) } else { None }
}

pub open spec fn draft_has(d: DraftV, i: int) -> bool {
    if i == 0 { d.id is Some } else if i <= 7 { d.opts[i - 1] is Some }
    else if i == 8 { d.tags is Some } else if i == 9 { d.authors is Some } else { d.author is Some }
}

/// Reads field `i` of an item from `v` into the draft.
pub open spec fn draft_set(d: DraftV, i: int, v: JsonValue) -> Result<DraftV, Seq<char>> {
    if i == 0 {
        match dec_string(v) { Ok(x) => Ok(DraftV { id: Some(x), ..d }), Err(m) => Err(m) }
    } else if i <= 7 {
        match dec_opt_string(v) { Ok(x) => Ok(DraftV { opts: d.opts.update(i - 1, Some(x)), ..d }), Err(m) => Err(m) }
    } else if i == 8 {
        match dec_strings(v) { Ok(x) => Ok(DraftV { tags: Some(x), ..d }), Err(m) => Err(m) }
    } else if i == 9 {
        match dec_authors(v) { Ok(x) => Ok(DraftV { authors: Some(x), ..d }), Err(m) => Err(m) }
    } else {
        match dec_opt_author(v) { Ok(x) => Ok(DraftV { author: Some(x), ..d }), Err(m) => Err(m) }
    }
}

pub open spec fn item_step(d: DraftV, e: (String, JsonValue)) -> Result<DraftV, Seq<char>> {
    match item_field_index(e.0@) {
        None => Ok(d),
        Some(i) => if draft_has(d, i) { Err(duplicate_field(e.0@)) } else { draft_set(d, i, e.1) },
    }
}

pub open spec fn item_step_fn() -> spec_fn(DraftV, (String, JsonValue)) -> Result<DraftV, Seq<char>> {
    |d: DraftV, e: (String, JsonValue)| item_step(d, e)
}

pub open spec fn flat(o: Option<Option<Seq<char>>>) -> Option<Seq<char>> {
    match o { Some(x) => x, None => None }
}

/// The item a complete draft stands for; `id` is the one required member.
pub open spec fn finish_item(d: DraftV) -> Result<ItemFields, Seq<char>> {
    match d.id {
        None => Err(missing_field("id"@)),
        Some(id) => Ok(ItemFields {
            id,
            url: flat(d.opts[0]),
            title: flat(d.opts[1]),
            summary: flat(d.opts[2]),
            content_html: flat(d.opts[3]),
            content_text: flat(d.opts[4]),
            date_published: flat(d.opts[5]),
            date_modified: flat(d.opts[6]),
            tags: match d.tags { Some(t) => t, None => Seq::<Seq<char>>::empty() },
            authors: match d.authors { Some(a) => a, None => Seq::<AuthorFields>::empty() },
            author: match d.author { Some(a) => a, None => None },
        }),
    }
}

/// Reads the first `n` elements of an array as the first `n` fields.
pub open spec fn seq_draft(a: Seq<JsonValue>, n: nat) -> Result<DraftV, Seq<char>>
    decreases n,
{
    if n == 0 {
        Ok(empty_draft())
    } else {
        match seq_draft(a, (n - 1) as nat) {
            Err(m) => Err(m),
            Ok(d) => draft_set(d, n - 1, a[n - 1]),
        }
    }
}

pub open spec fn dec_item(v: JsonValue) -> Result<ItemFields, Seq<char>> {
    match v {
        JsonValue::Object(f) => match fold_ok(f@, empty_draft(), item_step_fn()) {
            Err(m) => Err(m),
            Ok(d) => finish_item(d),
        },
        JsonValue::Array(a) => {
            let len = a@.len();
            match seq_draft(a@, if len < 11 { len } else { 11 }) {
                Err(m) => Err(m),
                Ok(d) => if len < 11 {
                    Err(invalid_length(if len < 8 { len } else { 10 }, "struct JsonFeedItem with 11 elements"@))
                } else if len > 11 {
                    Err(invalid_length(len, "fewer elements in array"@))
                } else {
                    finish_item(d)
                },
            }
        },
        _ => Err(invalid_type(v, "struct JsonFeedItem"@)),
    }
}

struct ItemDraft {
    id: Option<String>,
    url: Option<Option<String>>,
    title: Option<Option<String>>,
    summary: Option<Option<String>>,
    content_html: Option<Option<String>>,
    content_text: Option<Option<String>>,
    date_published: Option<Option<String>>,
    date_modified: Option<Option<String>>,
    tags: Option<Vec<String>>,
    authors: Option<Vec<JsonAuthor>>,
    author: Option<Option<JsonAuthor>>,
}

spec fn draft_view(d: ItemDraft) -> DraftV {
    DraftV {
        id: view_opt(d.id),
        opts: seq![
            view_opt_slot(d.url), view_opt_slot(d.title), view_opt_slot(d.summary),
            view_opt_slot(d.content_html), view_opt_slot(d.content_text),
            view_opt_slot(d.date_published), view_opt_slot(d.date_modified)
        ],
        tags: match d.tags { Some(t) => Some(view_strings(t@)), None => None },
        authors: match d.authors { Some(a) => Some(authors_view(a@)), None => None },
        author: match d.author { Some(a) => Some(view_opt_author(a)), None => None },
    }
}

fn new_draft() -> (d: ItemDraft)
    ensures
        draft_view(d) == empty_draft(),
{
    let d = ItemDraft {
        id: None, url: None, title: None, summary: None, content_html: None, content_text: None,
        date_published: None, date_modified: None, tags: None, authors: None, author: None,
    };
    assert(draft_view(d).opts =~= empty_draft().opts);
    d
}

fn item_field_position(k: &String) -> (res: Option<usize>)
    ensures
        match res {
            Some(i) => item_field_index(k@) == Some(i as int),
            None => item_field_index(k@) is None,
        },
{
    if same_text(k, "id") { Some(0) } else if same_text(k, "url") { Some(1) }
    else if same_text(k, "title") { Some(2) } else if same_text(k, "summary") { Some(3) }
    else if same_text(k, "content_html") { Some(4) } else if same_text(k, "content_text") { Some(5) }
    else if same_text(k, "date_published") { Some(6) } else if same_text(k, "date_modified") { Some(7) }
    else if same_text(k, "tags") { Some(8) } else if same_text(k, "authors") { Some(9) }
    else if same_text(k, "author") { Some(10) } else { None }
}

fn draft_has_field(d: &ItemDraft, i: usize) -> (res: bool)
    requires
        i < 11,
    ensures
        res == draft_has(draft_view(*d), i as int),
{
    if i == 0 { d.id.is_some() } else if i == 1 { d.url.is_some() } else if i == 2 { d.title.is_some() }
    else if i == 3 { d.summary.is_some() } else if i == 4 { d.content_html.is_some() }
    else if i == 5 { d.content_text.is_some() } else if i == 6 { d.date_published.is_some() }
    else if i == 7 { d.date_modified.is_some() } else if i == 8 { d.tags.is_some() }
    else if i == 9 { d.authors.is_some() } else { d.author.is_some() }
}

fn set_field(d: ItemDraft, i: usize, v: &JsonValue) -> (res: Result<ItemDraft, String>)
    requires
        i < 11,
    ensures
        match res {
            Ok(e) => draft_set(draft_view(d), i as int, *v) == Ok::<DraftV, Seq<char>>(draft_view(e)),
            Err(m) => draft_set(draft_view(d), i as int, *v) == Err::<DraftV, Seq<char>>(m@),
        },
{
    let ghost dv = draft_view(d);
    if i == 0 {
        match decode_string(v) {
            Ok(x) => {
                let e = ItemDraft { id: Some(x), ..d };
                assert(draft_view(e) =~= DraftV { id: Some(x@), ..dv });
                Ok(e)
            },
            Err(m) => Err(m),
        }
    } else if i <= 7 {
        match decode_opt_string(v) {
            Ok(x) => {
                let ghost xv = view_opt(x);
                let e = if i == 1 { ItemDraft { url: Some(x), ..d } }
                    else if i == 2 { ItemDraft { title: Some(x), ..d } }
                    else if i == 3 { ItemDraft { summary: Some(x), ..d } }
                    else if i == 4 { ItemDraft { content_html: Some(x), ..d } }
                    else if i == 5 { ItemDraft { content_text: Some(x), ..d } }
                    else if i == 6 { ItemDraft { date_published: Some(x), ..d } }
                    else { ItemDraft { date_modified: Some(x), ..d } };
                assert(draft_view(e).opts =~= dv.opts.update(i - 1, Some(xv)));
                assert(draft_view(e) =~= DraftV { opts: dv.opts.update(i - 1, Some(xv)), ..dv });
                Ok(e)
            },
            Err(m) => Err(m),
        }
    } else if i == 8 {
        match decode_strings(v) {
            Ok(x) => {
                let ghost xv = view_strings(x@);
                let e = ItemDraft { tags: Some(x), ..d };
                assert(draft_view(e) =~= DraftV { tags: Some(xv), ..dv });
                Ok(e)
            },
            Err(m) => Err(m),
        }
    } else if i == 9 {
        match decode_authors(v) {
            Ok(x) => {
                let ghost xv = authors_view(x@);
                let e = ItemDraft { authors: Some(x), ..d };
                assert(draft_view(e) =~= DraftV { authors: Some(xv), ..dv });
                Ok(e)
            },
            Err(m) => Err(m),
        }
    } else {
        match decode_opt_author(v) {
            Ok(x) => {
                let ghost xv = view_opt_author(x);
                let e = ItemDraft { author: Some(x), ..d };
                assert(draft_view(e) =~= DraftV { author: Some(xv), ..dv });
                Ok(e)
            },
            Err(m) => Err(m),
        }
    }
}

fn flatten(o: Option<Option<String>>) -> (res: Option<String>)
    ensures
        view_opt(res) == flat(view_opt_slot(o)),
{
    match o { Some(x) => x, None => None }
}

fn finish_draft(d: ItemDraft) -> (res: Result<JsonFeedItem, String>)
    ensures
        match res {
            Ok(i) => finish_item(draft_view(d)) == Ok::<ItemFields, Seq<char>>(item_view(i)),
            Err(m) => finish_item(draft_view(d)) == Err::<ItemFields, Seq<char>>(m@),
        },
{
    let ghost dv = draft_view(d);
    match d.id {
        None => Err(field_text("missing field `", "id")),
        Some(id) => {
            let tags = match d.tags { Some(t) => t, None => Vec::new() };
            let authors = match d.authors { Some(a) => a, None => Vec::new() };
            let author = match d.author { Some(a) => a, None => None };
            let item = JsonFeedItem {
                id,
                url: flatten(d.url),
                title: flatten(d.title),
                summary: flatten(d.summary),
                content_html: flatten(d.content_html),
                content_text: flatten(d.content_text),
                date_published: flatten(d.date_published),
                date_modified: flatten(d.date_modified),
                tags,
                authors,
                author,
            };
            assert(item_view(item).tags =~= (match dv.tags { Some(t) => t, None => Seq::<Seq<char>>::empty() }));
            assert(item_view(item).authors =~= (match dv.authors { Some(a) => a, None => Seq::<AuthorFields>::empty() }));
            Ok(item)
        },
    }
}

fn decode_item(v: &JsonValue) -> (res: Result<JsonFeedItem, String>)
    ensures
        match res {
            Ok(i) => dec_item(*v) == Ok::<ItemFields, Seq<char>>(item_view(i)),
            Err(m) => dec_item(*v) == Err::<ItemFields, Seq<char>>(m@),
        },
{
    match v {
        JsonValue::Object(f) => {
            let mut d = new_draft();
            let mut i: usize = 0;
            assert(f@.take(0) =~= Seq::<(String, JsonValue)>::empty());
            while i < f.len()
                invariant
                    i <= f@.len(),
                    dec_item(*v) == (match fold_ok(f@, empty_draft(), item_step_fn()) {
                        Err(m) => Err(m),
                        Ok(d) => finish_item(d),
                    }),
                    fold_ok(f@.take(i as int), empty_draft(), item_step_fn()) == Ok::<DraftV, Seq<char>>(draft_view(d)),
                decreases f.len() - i,
            {
                proof {
                    lemma_fold_step(f@, empty_draft(), item_step_fn(), i as int);
                    assert(item_step_fn()(draft_view(d), f@[i as int]) == item_step(draft_view(d), f@[i as int]));
                }
                match item_field_position(&f[i].0) {
                    None => {},
                    Some(k) => {
                        if draft_has_field(&d, k) {
                            let mut m = "duplicate field `".to_owned();
                            m.append(f[i].0.as_str());
                            m.append("`");
                            proof { lemma_fold_err(f@, empty_draft(), item_step_fn(), i + 1); }
                            return Err(m);
                        }
                        match set_field(d, k, &f[i].1) {
                            Ok(e) => { d = e; },
                            Err(m) => {
                                proof { lemma_fold_err(f@, empty_draft(), item_step_fn(), i + 1); }
                                return Err(m);
                            },
                        }
                    },
                }
                i = i + 1;
            }
            assert(f@.take(f@.len() as int) == f@);
            finish_draft(d)
        },
        JsonValue::Array(a) => {
            let len = a.len();
            let n: usize = if len < 11 { len } else { 11 };
            let mut d = new_draft();
            let mut i: usize = 0;
            while i < n
                invariant
                    i <= n <= 11,
                    n <= a@.len(),
                    len == a@.len(),
                    n == (if len < 11 { len } else { 11 }),
                    *v == JsonValue::Array(*a),
                    seq_draft(a@, i as nat) == Ok::<DraftV, Seq<char>>(draft_view(d)),
                decreases n - i,
            {
                match set_field(d, i, &a[i]) {
                    Ok(e) => { d = e; },
                    Err(m) => {
                        proof { lemma_seq_draft_err(a@, (i + 1) as nat, n as nat); }
                        return Err(m);
                    },
                }
                i = i + 1;
            }
            if len < 11 {
                let at: usize = if len < 8 { len } else { 10 };
                Err(invalid_length_text(at, "struct JsonFeedItem with 11 elements"))
            } else if len > 11 {
                Err(invalid_length_text(len, "fewer elements in array"))
            } else {
                finish_draft(d)
            }
        },
        _ => Err(invalid_type_text(v, "struct JsonFeedItem")),
    }
}

proof fn lemma_seq_draft_err(a: Seq<JsonValue>, k: nat, n: nat)
    requires
        k <= n,
        seq_draft(a, k) is Err,
    ensures
        seq_draft(a, n) == seq_draft(a, k),
    decreases n - k,
{
    if k < n {
        lemma_seq_draft_err(a, k, (n - 1) as nat);
    }
}


// ---------------------------------------------------------------- feeds

/// A JSON Feed document: its title and items.
pub ghost struct FeedFields {
    pub title: Option<Seq<char>>,
    pub items: Seq<ItemFields>,
}

/// A JSON Feed document as read.
#[derive(Debug)]
pub struct JsonFeed {
    pub title: Option<String>,
    pub items: Vec<JsonFeedItem>,
}

pub open spec fn feed_view(f: JsonFeed) -> FeedFields {
    FeedFields { title: view_opt(f.title), items: items_view(f.items@) }
}

pub open spec fn items_step(acc: Seq<ItemFields>, v: JsonValue) -> Result<Seq<ItemFields>, Seq<char>> {
    match dec_item(v) {
        Ok(i) => Ok(acc.push(i)),
        Err(m) => Err(m),
    }
}

pub open spec fn items_step_fn() -> spec_fn(Seq<ItemFields>, JsonValue) -> Result<Seq<ItemFields>, Seq<char>> {
    |s: Seq<ItemFields>, x: JsonValue| items_step(s, x)
}

pub open spec fn dec_items(v: JsonValue) -> Result<Seq<ItemFields>, Seq<char>> {
    match v {
        JsonValue::Array(a) => fold_ok(a@, Seq::<ItemFields>::empty(), items_step_fn()),
        _ => Err(invalid_type(v, "a sequence"@)),
    }
}

/// The title and items read from a feed object so far.
pub open spec fn feed_step(
    d: (Option<Option<Seq<char>>>, Option<Seq<ItemFields>>),
    e: (String, JsonValue),
) -> Result<(Option<Option<Seq<char>>>, Option<Seq<ItemFields>>), Seq<char>> {
    if e.0@ == "title"@ {
        if d.0 is Some {
            Err(duplicate_field("title"@))
        } else {
            match dec_opt_string(e.1) { Ok(t) => Ok((Some(t), d.1)), Err(m) => Err(m) }
        }
    } else if e.0@ == "items"@ {
        if d.1 is Some {
            Err(duplicate_field("items"@))
        } else {
            match dec_items(e.1) { Ok(x) => Ok((d.0, Some(x))), Err(m) => Err(m) }
        }
    } else {
        Ok(d)
    }
}

pub open spec fn feed_step_fn() -> spec_fn(
    (Option<Option<Seq<char>>>, Option<Seq<ItemFields>>),
    (String, JsonValue),
) -> Result<(Option<Option<Seq<char>>>, Option<Seq<ItemFields>>), Seq<char>> {
    |d: (Option<Option<Seq<char>>>, Option<Seq<ItemFields>>), e: (String, JsonValue)| feed_step(d, e)
}

/// What serde's derived `Deserialize` makes of a JSON Feed value.
pub open spec fn dec_feed(v: JsonValue) -> Result<FeedFields, Seq<char>> {
    match v {
        JsonValue::Object(f) => match fold_ok(f@, (None, None), feed_step_fn()) {
            Err(m) => Err(m),
            Ok(d) => Ok(FeedFields {
                title: flat(d.0),
                items: match d.1 { Some(x) => x, None => Seq::<ItemFields>::empty() },
            }),
        },
        JsonValue::Array(a) => if a@.len() == 0 {
            Err(invalid_length(0, "struct JsonFeed with 2 elements"@))
        } else {
            match dec_opt_string(a@[0]) {
                Err(m) => Err(m),
                Ok(t) => if a@.len() == 1 {
                    Ok(FeedFields { title: t, items: Seq::<ItemFields>::empty() })
                } else {
                    match dec_items(a@[1]) {
                        Err(m) => Err(m),
                        Ok(x) => if a@.len() > 2 {
                            Err(invalid_length(a@.len(), "fewer elements in array"@))
                        } else {
                            Ok(FeedFields { title: t, items: x })
                        },
                    }
                },
            }
        },
        _ => Err(invalid_type(v, "struct JsonFeed"@)),
    }
}

fn decode_items(v: &JsonValue) -> (res: Result<Vec<JsonFeedItem>, String>)
    ensures
        match res {
            Ok(out) => dec_items(*v) == Ok::<Seq<ItemFields>, Seq<char>>(items_view(out@)),
            Err(m) => dec_items(*v) == Err::<Seq<ItemFields>, Seq<char>>(m@),
        },
{
    match v {
        JsonValue::Array(a) => {
            let mut out: Vec<JsonFeedItem> = Vec::new();
            let mut i: usize = 0;
            assert(a@.take(0) =~= Seq::<JsonValue>::empty());
            assert(items_view(out@) =~= Seq::<ItemFields>::empty());
            while i < a.len()
                invariant
                    i <= a@.len(),
                    dec_items(*v) == fold_ok(a@, Seq::<ItemFields>::empty(), items_step_fn()),
                    fold_ok(a@.take(i as int), Seq::<ItemFields>::empty(), items_step_fn()) == Ok::<Seq<ItemFields>, Seq<char>>(items_view(out@)),
                decreases a.len() - i,
            {
                proof {
                    lemma_fold_step(a@, Seq::<ItemFields>::empty(), items_step_fn(), i as int);
                    assert(items_step_fn()(items_view(out@), a@[i as int]) == items_step(items_view(out@), a@[i as int]));
                }
                match decode_item(&a[i]) {
                    Ok(x) => {
                        let ghost prev = out@;
                        let ghost xv = item_view(x);
                        out.push(x);
                        assert(items_view(out@) =~= items_view(prev).push(xv));
                    },
                    Err(m) => {
                        proof { lemma_fold_err(a@, Seq::<ItemFields>::empty(), items_step_fn(), i + 1); }
                        return Err(m);
                    },
                }
                i = i + 1;
            }
            assert(a@.take(a@.len() as int) == a@);
            Ok(out)
        },
        _ => Err(invalid_type_text(v, "a sequence")),
    }
}

spec fn feed_slots_view(t: Option<Option<String>>, x: Option<Vec<JsonFeedItem>>) -> (Option<Option<Seq<char>>>, Option<Seq<ItemFields>>) {
    (view_opt_slot(t), match x { Some(x) => Some(items_view(x@)), None => None })
}

/// Reads a JSON Feed document from a JSON value as serde's derived
/// `Deserialize` does.
pub fn decode_feed(v: &JsonValue) -> (res: Result<JsonFeed, String>)
    ensures
        match res {
            Ok(f) => dec_feed(*v) == Ok::<FeedFields, Seq<char>>(feed_view(f)),
            Err(m) => dec_feed(*v) == Err::<FeedFields, Seq<char>>(m@),
        },
{
    match v {
        JsonValue::Object(f) => {
            let mut title: Option<Option<String>> = None;
            let mut items: Option<Vec<JsonFeedItem>> = None;
            let mut i: usize = 0;
            assert(f@.take(0) =~= Seq::<(String, JsonValue)>::empty());
            while i < f.len()
                invariant
                    i <= f@.len(),
                    dec_feed(*v) == (match fold_ok(f@, (None, None), feed_step_fn()) {
                        Err(m) => Err(m),
                        Ok(d) => Ok(FeedFields {
                            title: flat(d.0),
                            items: match d.1 { Some(x) => x, None => Seq::<ItemFields>::empty() },
                        }),
                    }),
                    fold_ok(f@.take(i as int), (None, None), feed_step_fn()) == Ok::<(Option<Option<Seq<char>>>, Option<Seq<ItemFields>>), Seq<char>>(feed_slots_view(title, items)),
                decreases f.len() - i,
            {
                proof {
                    lemma_fold_step(f@, (None, None), feed_step_fn(), i as int);
                    assert(feed_step_fn()(feed_slots_view(title, items), f@[i as int]) == feed_step(feed_slots_view(title, items), f@[i as int]));
                }
                if same_text(&f[i].0, "title") {
                    if title.is_some() {
                        let m = field_text("duplicate field `", "title");
                        proof { lemma_fold_err(f@, (None, None), feed_step_fn(), i + 1); }
                        return Err(m);
                    }
                    match decode_opt_string(&f[i].1) {
                        Ok(t) => { title = Some(t); },
                        Err(m) => {
                            proof { lemma_fold_err(f@, (None, None), feed_step_fn(), i + 1); }
                            return Err(m);
                        },
                    }
                } else if same_text(&f[i].0, "items") {
                    if items.is_some() {
                        let m = field_text("duplicate field `", "items");
                        proof { lemma_fold_err(f@, (None, None), feed_step_fn(), i + 1); }
                        return Err(m);
                    }
                    match decode_items(&f[i].1) {
                        Ok(x) => { items = Some(x); },
                        Err(m) => {
                            proof { lemma_fold_err(f@, (None, None), feed_step_fn(), i + 1); }
                            return Err(m);
                        },
                    }
                }
                i = i + 1;
            }
            assert(f@.take(f@.len() as int) == f@);
            let ghost slots = feed_slots_view(title, items);
            let title = flatten(title);
            let items = match items { Some(x) => x, None => Vec::new() };
            let out = JsonFeed { title, items };
            assert(feed_view(out).items =~= (match slots.1 { Some(x) => x, None => Seq::<ItemFields>::empty() }));
            Ok(out)
        },
        JsonValue::Array(a) => {
            if a.len() == 0 {
                return Err(invalid_length_text(0, "struct JsonFeed with 2 elements"));
            }
            match decode_opt_string(&a[0]) {
                Err(m) => Err(m),
                Ok(t) => if a.len() == 1 {
                    let out = JsonFeed { title: t, items: Vec::new() };
                    assert(feed_view(out).items =~= Seq::<ItemFields>::empty());
                    Ok(out)
                } else {
                    match decode_items(&a[1]) {
                        Err(m) => Err(m),
                        Ok(x) => if a.len() > 2 {
                            Err(invalid_length_text(a.len(), "fewer elements in array"))
                        } else {
                            Ok(JsonFeed { title: t, items: x })
                        },
                    }
                },
            }
        },
        _ => Err(invalid_type_text(v, "struct JsonFeed")),
    }
}

} // verus!
