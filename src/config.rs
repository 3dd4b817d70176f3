use crate::entry::ZoneEntry;
use crate::error::TzError;
use vstd::prelude::*;

verus! {

#[verifier::external_type_specification]
#[verifier::external_body]
pub struct ExTomlValue(toml::Value);

#[verifier::external_type_specification]
#[verifier::external_body]
#[verifier::reject_recursive_types(K)]
#[verifier::reject_recursive_types(V)]
pub struct ExTomlMap<K, V>(toml::map::Map<K, V>);

#[verifier::external_type_specification]
#[verifier::external_body]
pub struct ExTomlError(toml::de::Error);

/// Whether `text` is a well-formed TOML document.
pub uninterp spec fn toml_well_formed(text: Seq<char>) -> bool;

/// The fields of a TOML table in the order the table yields them: each key, with the text of its value where
/// that value is a string and `None` where it is any other kind of value.
pub uninterp spec fn table_fields(t: toml::map::Map<String, toml::Value>) -> Seq<(Seq<char>, Option<Seq<char>>)>;

/// The view of an optional string.
pub open spec fn opt_view(o: Option<String>) -> Option<Seq<char>> {
    match o {
        Some(s) => Some(s@),
        None => None,
    }
}

/// The view of a list of fields.
pub open spec fn fields_view(f: Seq<(String, Option<String>)>) -> Seq<(Seq<char>, Option<Seq<char>>)> {
    f.map_values(|p: (String, Option<String>)| (p.0@, opt_view(p.1)))
}

/// For the TOML document `text`, the fields of the table stored under the top-level
/// key `key`; `None` where that key is absent or its value is not a table.
pub uninterp spec fn document_subtable(text: Seq<char>, key: Seq<char>) -> Option<Seq<(Seq<char>, Option<Seq<char>>)>>;

/// For the table `t`, the fields of the table stored under `key`; `None` where that
/// key is absent or its value is not a table.
pub uninterp spec fn subtable_fields(t: toml::map::Map<String, toml::Value>, key: Seq<char>) -> Option<Seq<(Seq<char>, Option<Seq<char>>)>>;

/// The fields of the value `v` where it is a table; `None` for any other value.
pub uninterp spec fn value_table_fields(v: toml::Value) -> Option<Seq<(Seq<char>, Option<Seq<char>>)>>;

/// Relies on toml's `FromStr` for `Table`: a table for a well-formed document, an
/// error for any other text. The table is the document's top level, so what it holds
/// under each key is what the document holds there.
#[verifier::external_body]
fn parse_document(text: &str) -> (r: Result<toml::Table, toml::de::Error>)
    ensures
        r is Ok <==> toml_well_formed(text@),
        r matches Ok(t) ==> forall|k: Seq<char>| #[trigger] subtable_fields(t, k) == document_subtable(text@, k),
{
    text.parse::<toml::Table>()
}

/// Relies on toml's `Map::get`: the value stored under `key`, or `None` where the
/// table has no such key.
#[verifier::external_body]
fn table_get<'a>(t: &'a toml::Table, key: &str) -> (r: Option<&'a toml::Value>)
    ensures
        r is None ==> subtable_fields(*t, key@) is None,
        r matches Some(v) ==> value_table_fields(*v) == subtable_fields(*t, key@),
{
    t.get(key)
}

/// Relies on toml's `Value::as_table`: the table that a value holds, if it is one.
pub assume_specification<'a>[ toml::Value::as_table ](v: &'a toml::Value) -> (r: Option<&'a toml::Table>)
    ensures
        r is None ==> value_table_fields(*v) is None,
        r matches Some(t) ==> value_table_fields(*v) == Some(table_fields(*t)),
;

/// Relies on toml's `Map::iter`, which yields each key of the table once, and on
/// `Value::as_str`, which gives the text of a string value and `None` for others.
#[verifier::external_body]
fn table_entries(t: &toml::Table) -> (r: Vec<(String, Option<String>)>)
    ensures
        fields_view(r@) == table_fields(*t),
        forall|i: int, j: int| 0 <= i < j < r@.len() ==> (#[trigger] r@[i]).0@ != (#[trigger] r@[j]).0@,
{
    t.iter().map(|(k, v)| (k.clone(), v.as_str().map(|s| s.to_string()))).collect()
}

/// The key of the table that lists the configured zones.
pub open spec fn timezones_key() -> Seq<char> {
    seq!['t', 'i', 'm', 'e', 'z', 'o', 'n', 'e', 's']
}

/// The fields of the `timezones` table of a configuration document; `None` where the
/// document is malformed, has no such key, or holds something other than a table there.
pub open spec fn config_fields(text: Seq<char>) -> Option<Seq<(Seq<char>, Option<Seq<char>>)>> {
    if toml_well_formed(text) {
        document_subtable(text, timezones_key())
    } else {
        None
    }
}

/// `entries` are the fields in order, each name with its zone identifier.
pub open spec fn entries_match(fields: Seq<(Seq<char>, Option<Seq<char>>)>, entries: Seq<ZoneEntry>) -> bool {
    &&& entries.len() == fields.len()
    &&& forall|i: int|
        0 <= i < entries.len() ==> (#[trigger] entries[i]).display_name@ == fields[i].0 && Some(
            entries[i].zone_id@,
        ) == fields[i].1
}

/// Whether some field's value is not a string.
pub open spec fn has_non_string(fields: Seq<(Seq<char>, Option<Seq<char>>)>) -> bool {
    exists|i: int| 0 <= i < fields.len() && (#[trigger] fields[i]).1 is None
}

/// `r` is what loading the fields `fields` of a `timezones` table gives: no fields is
/// an empty configuration, a value that is not a string is a schema error, and
/// otherwise one entry per field.
pub open spec fn loaded_from(fields: Seq<(Seq<char>, Option<Seq<char>>)>, r: Result<Vec<ZoneEntry>, TzError>) -> bool {
    &&& fields.len() == 0 ==> r == Err::<Vec<ZoneEntry>, TzError>(TzError::EmptyConfigError)
    &&& fields.len() > 0 && has_non_string(fields) ==> r == Err::<Vec<ZoneEntry>, TzError>(
        TzError::ConfigSchemaError,
    )
    &&& fields.len() > 0 && !has_non_string(fields) ==> (r matches Ok(v) && entries_match(fields, v@))
}

/// What loading the configuration document `text` gives.
pub open spec fn config_loaded(text: Seq<char>, r: Result<Vec<ZoneEntry>, TzError>) -> bool {
    match config_fields(text) {
        None => r == Err::<Vec<ZoneEntry>, TzError>(TzError::ConfigParseError),
        Some(f) => loaded_from(f, r),
    }
}

/// Turns the fields of the `timezones` table into zone entries. Every value must be
/// a zone identifier string, and there must be at least one.
pub fn entries_from_fields(fields: &Vec<(String, Option<String>)>) -> (r: Result<Vec<ZoneEntry>, TzError>)
    ensures
        loaded_from(fields_view(fields@), r),
        r matches Ok(v) ==> entries_match(fields_view(fields@), v@),
{
    if fields.len() == 0 {
        return Err(TzError::EmptyConfigError);
    }
    let ghost fv = fields_view(fields@);
    let mut out: Vec<ZoneEntry> = Vec::new();
    let mut i: usize = 0;
    while i < fields.len()
        invariant
            i <= fields@.len(),
            fv == fields_view(fields@),
            entries_match(fv.subrange(0, i as int), out@),
            forall|k: int| 0 <= k < i ==> (#[trigger] fv[k]).1 is Some,
        decreases fields@.len() - i,
    {
        let field = &fields[i];
        assert(fv[i as int] == (field.0@, opt_view(field.1)));
        match &field.1 {
            None => {
                return Err(TzError::ConfigSchemaError);
            },
            Some(zone) => {
                out.push(ZoneEntry { display_name: field.0.clone(), zone_id: zone.clone() });
            },
        }
        i += 1;
    }
    assert(fv.subrange(0, i as int) =~= fv);
    Ok(out)
}

/// Reads the `timezones` table of a TOML document into zone entries, one per field.
pub fn parse_config(text: &str) -> (r: Result<Vec<ZoneEntry>, TzError>)
    ensures
        config_loaded(text@, r),
        r matches Ok(v) ==> forall|i: int, j: int|
            0 <= i < j < v@.len() ==> (#[trigger] v@[i]).display_name@ != (#[trigger] v@[j]).display_name@,
{
    let doc = match parse_document(text) {
        Ok(doc) => doc,
        Err(_) => {
            return Err(TzError::ConfigParseError);
        },
    };
    proof {
        reveal_strlit("timezones");
        assert("timezones"@ =~= timezones_key());
    }
    let value = match table_get(&doc, "timezones") {
        Some(value) => value,
        None => {
            return Err(TzError::ConfigParseError);
        },
    };
    let table = match value.as_table() {
        Some(table) => table,
        None => {
            return Err(TzError::ConfigParseError);
        },
    };
    let fields = table_entries(table);
    let r = entries_from_fields(&fields);
    proof {
        if r is Ok {
            let v = r->Ok_0;
            assert forall|i: int, j: int| 0 <= i < j < v@.len() implies (#[trigger] v@[i]).display_name@
                != (#[trigger] v@[j]).display_name@ by {
                assert(fields_view(fields@)[i].0 == fields@[i].0@);
                assert(fields_view(fields@)[j].0 == fields@[j].0@);
            }
        }
    }
    r
}

/// The view of a load result: each entry as its name and zone identifier, in order.
pub open spec fn load_view(r: Result<Vec<ZoneEntry>, TzError>) -> Result<Seq<(Seq<char>, Seq<char>)>, TzError> {
    match r {
        Ok(v) => Ok(v@.map_values(|e: ZoneEntry| (e.display_name@, e.zone_id@))),
        Err(e) => Err(e),
    }
}

/// Loading is deterministic: two loads of the same document give the same entries
/// in the same order, or the same error.
pub proof fn lemma_load_deterministic(
    text: Seq<char>,
    r1: Result<Vec<ZoneEntry>, TzError>,
    r2: Result<Vec<ZoneEntry>, TzError>,
)
    requires
        config_loaded(text, r1),
        config_loaded(text, r2),
    ensures
        load_view(r1) == load_view(r2),
{
    if let Some(f) = config_fields(text) {
        if f.len() > 0 && !has_non_string(f) {
            let v1 = r1->Ok_0;
            let v2 = r2->Ok_0;
            let m1 = v1@.map_values(|e: ZoneEntry| (e.display_name@, e.zone_id@));
            let m2 = v2@.map_values(|e: ZoneEntry| (e.display_name@, e.zone_id@));
            assert forall|i: int| 0 <= i < m1.len() implies m1[i] == m2[i] by {
                assert(Some(v1@[i].zone_id@) == f[i].1);
                assert(Some(v2@[i].zone_id@) == f[i].1);
            }
            assert(m1 =~= m2);
        }
    }
}

} // verus!
