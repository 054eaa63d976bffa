use vstd::prelude::*;

verus! {

/// The map that `pairs` make when read in order, a later pair replacing an
/// earlier one under the same name.
pub open spec fn pairs_map<V>(pairs: Seq<(Seq<char>, V)>) -> Map<Seq<char>, V>
    decreases pairs.len(),
{
    if pairs.len() == 0 {
        Map::empty()
    } else {
        pairs_map(pairs.drop_last()).insert(pairs.last().0, pairs.last().1)
    }
}

/// A map read from pairs has a name exactly where some pair has it, and under
/// each name the value of the last pair with that name.
pub proof fn lemma_pairs_map<V>(pairs: Seq<(Seq<char>, V)>)
    ensures
        forall|k: Seq<char>|
            #[trigger] pairs_map(pairs).contains_key(k) <==> exists|i: int|
                0 <= i < pairs.len() && (#[trigger] pairs[i]).0 == k,
        forall|i: int|
            0 <= i < pairs.len() && (forall|j: int| i < j < pairs.len() ==> (#[trigger] pairs[j]).0 != pairs[i].0)
                ==> pairs_map(pairs)[(#[trigger] pairs[i]).0] == pairs[i].1,
    decreases pairs.len(),
{
    if pairs.len() > 0 {
        let rest = pairs.drop_last();
        lemma_pairs_map(rest);
        assert(pairs_map(pairs) == pairs_map(rest).insert(pairs.last().0, pairs.last().1));
        assert forall|k: Seq<char>|
            #[trigger] pairs_map(pairs).contains_key(k) <==> exists|i: int|
                0 <= i < pairs.len() && (#[trigger] pairs[i]).0 == k by {
            if pairs_map(pairs).contains_key(k) && k != pairs.last().0 {
                assert(pairs_map(rest).contains_key(k));
                let i = choose|i: int| 0 <= i < rest.len() && (#[trigger] rest[i]).0 == k;
                assert(pairs[i] == rest[i]);
            }
            if exists|i: int| 0 <= i < pairs.len() && (#[trigger] pairs[i]).0 == k {
                let i = choose|i: int| 0 <= i < pairs.len() && (#[trigger] pairs[i]).0 == k;
                if i < rest.len() {
                    assert(rest[i] == pairs[i]);
                    assert(pairs_map(rest).contains_key(k));
                }
            }
            if pairs_map(pairs).contains_key(k) && k == pairs.last().0 {
                assert(pairs[pairs.len() - 1].0 == k);
            }
        }
        assert forall|i: int|
            0 <= i < pairs.len() && (forall|j: int| i < j < pairs.len() ==> (#[trigger] pairs[j]).0 != pairs[i].0)
                implies pairs_map(pairs)[(#[trigger] pairs[i]).0] == pairs[i].1 by {
            if i < rest.len() {
                assert(pairs[pairs.len() - 1].0 != pairs[i].0);
                assert(rest[i] == pairs[i]);
                assert forall|j: int| i < j < rest.len() implies (#[trigger] rest[j]).0 != rest[i].0 by {
                    assert(rest[j] == pairs[j]);
                }
            }
        }
    }
}

/// The map of objects that `entries` make: each entry's members read as a map
/// of their own.
pub open spec fn objects_map(entries: Seq<(Seq<char>, Seq<(Seq<char>, Seq<char>)>)>) -> Map<
    Seq<char>,
    Map<Seq<char>, Seq<char>>,
> {
    pairs_map(
        entries.map_values(
            |e: (Seq<char>, Seq<(Seq<char>, Seq<char>)>)| (e.0, pairs_map(e.1)),
        ),
    )
}

/// Text that a JSON string holds as it is: no control character, quote or
/// backslash, which would be escaped.
pub open spec fn is_plain_text(s: Seq<char>) -> bool {
    forall|i: int| 0 <= i < s.len() ==> ' ' <= #[trigger] s[i] && s[i] != '"' && s[i] != '\\'
}

/// `a` comes before `b` in the order of their characters.
pub open spec fn text_less(a: Seq<char>, b: Seq<char>) -> bool
    decreases a.len(),
{
    if b.len() == 0 {
        false
    } else if a.len() == 0 {
        true
    } else if a[0] != b[0] {
        a[0] < b[0]
    } else {
        text_less(a.skip(1), b.skip(1))
    }
}

/// `s` as a JSON string, where it is plain text.
pub open spec fn quoted(s: Seq<char>) -> Seq<char> {
    "\""@ + s + "\""@
}

/// The members `fields`, strings all, written as JSON: `"name":"value"`,
/// separated by commas.
pub open spec fn string_members_text(fields: Seq<(Seq<char>, Seq<char>)>) -> Seq<char>
    decreases fields.len(),
{
    if fields.len() == 0 {
        Seq::empty()
    } else if fields.len() == 1 {
        quoted(fields[0].0) + ":"@ + quoted(fields[0].1)
    } else {
        string_members_text(fields.drop_last()) + ","@ + quoted(fields.last().0) + ":"@ + quoted(
            fields.last().1,
        )
    }
}

/// The compact JSON text of the object whose members are `fields`, every value
/// a string.
pub uninterp spec fn json_string_object(fields: Map<Seq<char>, Seq<char>>) -> Seq<char>;

/// The compact JSON texts of the items of the array written in `text`; `None`
/// where serde_json does not read `text` as an array (it is not one, or it
/// nests deeper than serde_json accepts).
pub uninterp spec fn json_array_item_texts(text: Seq<char>) -> Option<Seq<Seq<char>>>;

/// The compact JSON text of the object that `entries` make (see
/// `objects_map`): a member per entry name, a later entry replacing an earlier
/// one of the same name, whose value is the object of the entry's members,
/// each given as JSON text. `None` where one of those texts is not read by
/// serde_json.
pub uninterp spec fn json_object_of_objects(
    entries: Seq<(Seq<char>, Seq<(Seq<char>, Seq<char>)>)>,
) -> Option<Seq<char>>;

/// Relies on serde_json::Value's `Display`, given an object built as a
/// serde_json::Map of string values: the object's compact text, its members in
/// the order of their names, each string quoted and, where it is plain text,
/// not escaped.
#[verifier::external_body]
pub(crate) fn string_object_text(fields: &Vec<(String, String)>) -> (r: String)
    ensures
        r@ == json_string_object(pairs_map(fields.deep_view())),
        (forall|i: int|
            0 <= i < fields@.len() ==> is_plain_text((#[trigger] fields@[i]).0@) && is_plain_text(
                fields@[i].1@,
            )) && (forall|i: int|
            0 <= i < fields@.len() - 1 ==> text_less(
                (#[trigger] fields@[i]).0@,
                fields@[i + 1].0@,
            )) ==> r@ == "{"@ + string_members_text(fields.deep_view()) + "}"@,
{
    let map: serde_json::Map<String, serde_json::Value> = fields
        .iter()
        .map(|(k, v)| (k.clone(), serde_json::Value::String(v.clone())))
        .collect();
    serde_json::Value::Object(map).to_string()
}

/// Relies on serde_json::from_str, reading an array of JSON values of any kind;
/// each item is written back by serde_json::Value's `Display`.
#[verifier::external_body]
pub(crate) fn json_array_items(text: &str) -> (r: Result<Vec<String>, String>)
    ensures
        match r {
            Ok(items) => json_array_item_texts(text@) == Some(items.deep_view()),
            Err(_) => json_array_item_texts(text@) is None,
        },
{
    let items: Vec<serde_json::Value> = serde_json::from_str(text).map_err(|e| e.to_string())?;
    Ok(items.iter().map(|v| v.to_string()).collect())
}

/// Relies on serde_json: each member's text is read by serde_json::from_str,
/// the objects are built as serde_json::Map values, and the whole is written
/// out by serde_json::Value's `Display`. An empty object is written `{}`.
#[verifier::external_body]
pub(crate) fn object_of_objects_text(entries: &Vec<(String, Vec<(String, String)>)>) -> (r: Result<
    String,
    String,
>)
    ensures
        match r {
            Ok(t) => json_object_of_objects(entries.deep_view()) == Some(t@),
            Err(_) => json_object_of_objects(entries.deep_view()) is None,
        },
        entries@.len() == 0 ==> (r is Ok && r->Ok_0@ == "{}"@),
{
    let mut doc = serde_json::Map::new();
    for (key, members) in entries {
        let mut object = serde_json::Map::new();
        for (name, text) in members {
            let value: serde_json::Value = serde_json::from_str(text).map_err(|e| e.to_string())?;
            object.insert(name.clone(), value);
        }
        doc.insert(key.clone(), serde_json::Value::Object(object));
    }
    Ok(serde_json::Value::Object(doc).to_string())
}

} // verus!
