use vstd::prelude::*;

verus! {

/// A JSON document as the release catalog returns it. Numbers keep their text;
/// an object keeps its members in order, each key once.
#[derive(Debug, PartialEq, Eq)]
pub enum Json {
    Null,
    Bool(bool),
    Number(String),
    Str(String),
    Array(Vec<Json>),
    Object(Vec<(String, Json)>),
}

/// What looking up the download link in a catalog response gave.
#[derive(Debug, PartialEq, Eq)]
pub enum Resolution {
    Found(String),
    NotFound,
}

pub open spec fn query_prefix() -> Seq<char> {
    "https://api.adoptium.net/v3/assets/feature_releases/"@
}

pub open spec fn query_suffix() -> Seq<char> {
    "/ga?architecture=x64&os=windows&image_type=jdk"@
}

/// The catalog query for the general-availability releases of `version`.
pub open spec fn query_url(version: Seq<char>) -> Seq<char> {
    query_prefix() + version + query_suffix()
}

/// The first element of an array; nothing for an empty array or another value.
pub open spec fn first_of(j: Json) -> Option<Json> {
    match j {
        Json::Array(v) => if v@.len() > 0 {
            Some(v@[0])
        } else {
            None
        },
        _ => None,
    }
}

/// The value of the first member named `key` at or after position `i`.
pub open spec fn member_from(m: Seq<(String, Json)>, key: Seq<char>, i: int) -> Option<Json>
    decreases m.len() - i,
{
    if i < 0 || i >= m.len() {
        None
    } else if m[i].0@ == key {
        Some(m[i].1)
    } else {
        member_from(m, key, i + 1)
    }
}

/// The member named `key` of an object; nothing for another value.
pub open spec fn field_of(j: Json, key: Seq<char>) -> Option<Json> {
    match j {
        Json::Object(m) => member_from(m@, key, 0),
        _ => None,
    }
}

/// The download link of a catalog response: first release, its `binaries`,
/// the first of them, its `package`, and that package's `link`, which must be
/// a string.
pub open spec fn catalog_link(j: Json) -> Option<Seq<char>> {
    match first_of(j) {
        Some(release) => match field_of(release, "binaries"@) {
            Some(binaries) => match first_of(binaries) {
                Some(binary) => match field_of(binary, "package"@) {
                    Some(package) => match field_of(package, "link"@) {
                        Some(Json::Str(s)) => Some(s@),
                        _ => None,
                    },
                    None => None,
                },
                None => None,
            },
            None => None,
        },
        None => None,
    }
}

/// Builds the catalog query for `version`.
pub fn release_query_url(version: &str) -> (r: String)
    ensures
        r@ == query_url(version@),
{
    String::from_str("https://api.adoptium.net/v3/assets/feature_releases/").concat(version).concat(
        "/ga?architecture=x64&os=windows&image_type=jdk",
    )
}

/// The first element of an array value.
pub fn first_element(j: &Json) -> (r: Option<&Json>)
    ensures
        r matches Some(x) ==> first_of(*j) == Some(*x),
        r is None ==> first_of(*j) is None,
{
    match j {
        Json::Array(v) => if v.len() > 0 {
            Some(&v[0])
        } else {
            None
        },
        _ => None,
    }
}

/// The member named `key` of an object value.
pub fn member<'a>(j: &'a Json, key: &str) -> (r: Option<&'a Json>)
    ensures
        r matches Some(x) ==> field_of(*j, key@) == Some(*x),
        r is None ==> field_of(*j, key@) is None,
{
    match j {
        Json::Object(m) => {
            let want = String::from_str(key);
            let mut i: usize = 0;
            while i < m.len()
                invariant
                    want@ == key@,
                    i <= m@.len(),
                    field_of(*j, key@) == member_from(m@, key@, i as int),
                decreases m@.len() - i,
            {
                if m[i].0 == want {
                    assert(member_from(m@, key@, i as int) == Some(m@[i as int].1));
                    return Some(&m[i].1);
                }
                i = i + 1;
            }
            None
        },
        _ => None,
    }
}

/// Looks up the download link of a catalog response, one step at a time,
/// stopping at the first step that finds nothing.
pub fn find_link(catalog: &Json) -> (r: Resolution)
    ensures
        r matches Resolution::Found(s) ==> catalog_link(*catalog) == Some(s@),
        r is NotFound ==> catalog_link(*catalog) is None,
{
    let release = match first_element(catalog) {
        Some(x) => x,
        None => return Resolution::NotFound,
    };
    let binaries = match member(release, "binaries") {
        Some(x) => x,
        None => return Resolution::NotFound,
    };
    let binary = match first_element(binaries) {
        Some(x) => x,
        None => return Resolution::NotFound,
    };
    let package = match member(binary, "package") {
        Some(x) => x,
        None => return Resolution::NotFound,
    };
    match member(package, "link") {
        Some(Json::Str(s)) => Resolution::Found(s.clone()),
        _ => Resolution::NotFound,
    }
}

} // verus!
