//! What holds of classification for every input.
use vstd::prelude::*;
use crate::json::{JsonValue, member, field_of, parsed_json};
use crate::connection::decoded;
use crate::fields::{
    lenient_reading, lenient_flag, lenient_count, lenient_reading_field, lenient_flag_field,
    lenient_count_field,
};
use crate::sensors::{classify, variant_of, variant_index};

verus! {

/// Classification is the first variant, in order, as which the value decodes;
/// it fails exactly when the value decodes as none of them.
pub proof fn lemma_classify_first_match(v: JsonValue)
    ensures
        classify(v) is None <==> (forall|i: int| 0 <= i < 5 ==> #[trigger] variant_of(i, v) is None),
        classify(v) matches Some(s) ==> {
            &&& variant_of(variant_index(s), v) == Some(s)
            &&& forall|j: int| 0 <= j < variant_index(s) ==> #[trigger] variant_of(j, v) is None
        },
{
    if classify(v) is None {
        assert forall|i: int| 0 <= i < 5 implies #[trigger] variant_of(i, v) is None by {
            assert(i == 0 || i == 1 || i == 2 || i == 3 || i == 4);
        }
    }
    if forall|i: int| 0 <= i < 5 ==> #[trigger] variant_of(i, v) is None {
        assert(variant_of(0, v) is None && variant_of(1, v) is None && variant_of(2, v) is None);
        assert(variant_of(3, v) is None && variant_of(4, v) is None);
    }
    if let Some(s) = classify(v) {
        assert forall|j: int| 0 <= j < variant_index(s) implies #[trigger] variant_of(j, v) is None by {
            assert(j == 0 || j == 1 || j == 2 || j == 3);
        }
    }
}

/// The fields that a value must have to decode as the variant at position `i`.
pub open spec fn required_fields(i: int) -> Seq<Seq<char>> {
    if i == 0 {
        seq!["Light"@, "SensorName"@, "Timestamp"@, "payload"@]
    } else if i == 1 {
        seq!["x"@, "y"@, "z"@, "SensorName"@, "Timestamp"@, "payload"@]
    } else if i == 2 {
        seq!["payload"@, "position"@]
    } else if i == 3 {
        seq!["azimuth"@, "pitch"@, "roll"@, "SensorName"@, "Timestamp"@, "payload"@]
    } else {
        seq!["IsNear"@, "MaxRange"@, "Value"@, "SensorName"@, "Timestamp"@, "payload"@]
    }
}

/// A value that lacks one required field of a variant never decodes as that
/// variant, and so is never classified as it.
pub proof fn lemma_missing_field_never_matches(v: JsonValue, i: int, k: int)
    requires
        0 <= i < 5,
        0 <= k < required_fields(i).len(),
        member(v, required_fields(i)[k]) is None,
    ensures
        variant_of(i, v) is None,
        !(classify(v) matches Some(s) && variant_index(s) == i),
{
    let key = required_fields(i)[k];
    if i == 0 {
        assert(key == "Light"@ || key == "SensorName"@ || key == "Timestamp"@ || key == "payload"@);
    } else if i == 1 {
        assert(key == "x"@ || key == "y"@ || key == "z"@ || key == "SensorName"@ || key
            == "Timestamp"@ || key == "payload"@);
    } else if i == 2 {
        assert(key == "payload"@ || key == "position"@);
    } else if i == 3 {
        assert(key == "azimuth"@ || key == "pitch"@ || key == "roll"@ || key == "SensorName"@
            || key == "Timestamp"@ || key == "payload"@);
    } else {
        assert(key == "IsNear"@ || key == "MaxRange"@ || key == "Value"@ || key == "SensorName"@
            || key == "Timestamp"@ || key == "payload"@);
    }
    assert(variant_of(i, v) is None);
    lemma_classify_first_match(v);
}

/// A number decodes as a lenient reading or count exactly as the string
/// that writes it does.
pub proof fn lemma_number_as_text(t: String)
    ensures
        lenient_reading(JsonValue::Number(t)) == lenient_reading(JsonValue::Str(t)),
        lenient_count(JsonValue::Number(t)) == lenient_count(JsonValue::Str(t)),
{
}

proof fn lemma_field_of_update(fs: Seq<(String, JsonValue)>, i: int, x: JsonValue, key: Seq<char>)
    requires
        0 <= i < fs.len(),
        forall|j: int| 0 <= j < i ==> (#[trigger] fs[j]).0@ != fs[i].0@,
    ensures
        key != fs[i].0@ ==> field_of(fs.update(i, (fs[i].0, x)), key) == field_of(fs, key),
        field_of(fs.update(i, (fs[i].0, x)), fs[i].0@) == Some(x),
        field_of(fs, fs[i].0@) == Some(fs[i].1),
    decreases fs.len(),
{
    let gs = fs.update(i, (fs[i].0, x));
    if i == 0 {
        assert(gs.drop_first() =~= fs.drop_first());
    } else {
        let t = fs.drop_first();
        assert(t[i - 1] == fs[i]);
        assert forall|j: int| 0 <= j < i - 1 implies (#[trigger] t[j]).0@ != t[i - 1].0@ by {
            assert(t[j] == fs[j + 1]);
        }
        lemma_field_of_update(t, i - 1, x, key);
        assert(gs.drop_first() =~= t.update(i - 1, (fs[i].0, x)));
        assert(fs[0].0@ != fs[i].0@);
    }
}

/// The fields whose values are read as lenient readings.
pub open spec fn is_lenient_reading_key(k: Seq<char>) -> bool {
    k == "Light"@ || k == "x"@ || k == "y"@ || k == "z"@ || k == "azimuth"@ || k == "pitch"@
        || k == "roll"@ || k == "MaxRange"@ || k == "Value"@
}

proof fn lemma_lenient_keys_apart(k: Seq<char>)
    requires
        is_lenient_reading_key(k) || k == "IsNear"@ || k == "Timestamp"@,
    ensures
        k != "SensorName"@,
        k != "payload"@,
        k != "position"@,
        !is_lenient_reading_key("IsNear"@),
        !is_lenient_reading_key("Timestamp"@),
        "IsNear"@ != "Timestamp"@,
{
    reveal_strlit("Light");
    reveal_strlit("x");
    reveal_strlit("y");
    reveal_strlit("z");
    reveal_strlit("azimuth");
    reveal_strlit("pitch");
    reveal_strlit("roll");
    reveal_strlit("MaxRange");
    reveal_strlit("Value");
    reveal_strlit("IsNear");
    reveal_strlit("SensorName");
    reveal_strlit("Timestamp");
    reveal_strlit("payload");
    reveal_strlit("position");
    assert(k.len() != 10);
    assert(k.len() == 7 ==> k[0] != 'p');
    assert(k.len() == 8 ==> k[0] != 'p');
    assert("IsNear"@.len() == 6);
    assert("Timestamp"@.len() == 9);
}

/// `w` is the object `v` with the value of its field at `i` written as `x`,
/// where that field is the first of its name, is lenient, and its decoder
/// reads `x` as it reads the old value.
pub open spec fn lenient_rewrite(v: JsonValue, w: JsonValue, i: int, x: JsonValue) -> bool {
    &&& v is Object
    &&& w is Object
    &&& 0 <= i < v->Object_0@.len()
    &&& w->Object_0@ == v->Object_0@.update(i, (v->Object_0@[i].0, x))
    &&& forall|j: int| 0 <= j < i ==> (#[trigger] v->Object_0@[j]).0@ != v->Object_0@[i].0@
    &&& {
        let (k, old_value) = v->Object_0@[i];
        ||| is_lenient_reading_key(k@) && lenient_reading(x) == lenient_reading(old_value)
        ||| k@ == "IsNear"@ && lenient_flag(x) == lenient_flag(old_value)
        ||| k@ == "Timestamp"@ && lenient_count(x) == lenient_count(old_value)
    }
}

/// Writing a lenient field in another form that its decoder reads the same
/// (a number as the string that writes it, a boolean as `true` or `false`,
/// where serde-aux reads that string as the same flag) leaves classification
/// unchanged.
pub proof fn lemma_lenient_field_swap(v: JsonValue, w: JsonValue, i: int, x: JsonValue)
    requires
        lenient_rewrite(v, w, i, x),
    ensures
        classify(w) == classify(v),
{
    let fs = v->Object_0@;
    let k = fs[i].0@;
    assert forall|key: Seq<char>| key != k implies #[trigger] member(w, key) == member(v, key) by {
        lemma_field_of_update(fs, i, x, key);
    }
    lemma_field_of_update(fs, i, x, k);
    lemma_lenient_keys_apart(k);
    assert(member(w, "SensorName"@) == member(v, "SensorName"@));
    assert(lenient_count_field(w, "Timestamp"@) == lenient_count_field(v, "Timestamp"@)) by {
        if "Timestamp"@ != k {
            assert(member(w, "Timestamp"@) == member(v, "Timestamp"@));
        }
    }
    assert(member(w, "payload"@) == member(v, "payload"@));
    assert(member(w, "position"@) == member(v, "position"@));
    assert forall|key: Seq<char>| is_lenient_reading_key(key) implies
        #[trigger] lenient_reading_field(w, key) == lenient_reading_field(v, key) by {
        if key != k {
            assert(member(w, key) == member(v, key));
        }
    }
    assert(lenient_flag_field(w, "IsNear"@) == lenient_flag_field(v, "IsNear"@)) by {
        if "IsNear"@ != k {
            assert(member(w, "IsNear"@) == member(v, "IsNear"@));
        }
    }
    assert(lenient_reading_field(w, "Light"@) == lenient_reading_field(v, "Light"@));
    assert(lenient_reading_field(w, "x"@) == lenient_reading_field(v, "x"@));
    assert(lenient_reading_field(w, "y"@) == lenient_reading_field(v, "y"@));
    assert(lenient_reading_field(w, "z"@) == lenient_reading_field(v, "z"@));
    assert(lenient_reading_field(w, "azimuth"@) == lenient_reading_field(v, "azimuth"@));
    assert(lenient_reading_field(w, "pitch"@) == lenient_reading_field(v, "pitch"@));
    assert(lenient_reading_field(w, "roll"@) == lenient_reading_field(v, "roll"@));
    assert(lenient_reading_field(w, "MaxRange"@) == lenient_reading_field(v, "MaxRange"@));
    assert(lenient_reading_field(w, "Value"@) == lenient_reading_field(v, "Value"@));
    assert(variant_of(0, w) == variant_of(0, v));
    assert(variant_of(1, w) == variant_of(1, v));
    assert(variant_of(2, w) == variant_of(2, v));
    assert(variant_of(3, w) == variant_of(3, v));
    assert(variant_of(4, w) == variant_of(4, v));
}

/// Two messages whose parsed objects differ only in how one lenient field is
/// written, both forms read the same by its decoder, decode to the same record
/// or both fail to decode.
pub proof fn lemma_message_coercion(t1: Seq<char>, t2: Seq<char>, i: int, x: JsonValue)
    requires
        parsed_json(t1) is Some,
        parsed_json(t2) is Some,
        lenient_rewrite(parsed_json(t1)->0, parsed_json(t2)->0, i, x),
    ensures
        decoded(t2) == decoded(t1),
{
    lemma_lenient_field_swap(parsed_json(t1)->0, parsed_json(t2)->0, i, x);
}

} // verus!
