//! From the names and values that people write to those that keys and signatures use.
use vstd::prelude::*;

use crate::cl;
use crate::error::Error;
use crate::types::{AttributeNames, AttributeValues, CredentialValues};

verus! {

// ---- numbers ----

/// The character of a decimal digit.
pub open spec fn digit(d: nat) -> char {
    (48 + d) as char
}

/// A number in decimal digits, without leading zeros.
pub open spec fn decimal(n: nat) -> Seq<char>
    decreases n,
{
    if n < 10 {
        seq![digit(n)]
    } else {
        decimal(n / 10).push(digit(n % 10))
    }
}

fn digit_text(d: u32) -> (res: &'static str)
    requires
        d < 10,
    ensures
        res@ == seq![digit(d as nat)],
{
    proof {
        reveal_strlit("0");
        reveal_strlit("1");
        reveal_strlit("2");
        reveal_strlit("3");
        reveal_strlit("4");
        reveal_strlit("5");
        reveal_strlit("6");
        reveal_strlit("7");
        reveal_strlit("8");
        reveal_strlit("9");
    }
    match d {
        0 => "0",
        1 => "1",
        2 => "2",
        3 => "3",
        4 => "4",
        5 => "5",
        6 => "6",
        7 => "7",
        8 => "8",
        _ => "9",
    }
}

/// Writes a number in decimal digits.
pub fn decimal_text(n: u32) -> (res: String)
    ensures
        res@ == decimal(n as nat),
    decreases n,
{
    if n < 10 {
        digit_text(n).to_owned()
    } else {
        let mut text = decimal_text(n / 10);
        text.append(digit_text(n % 10));
        assert(text@ =~= decimal((n / 10) as nat).push(digit((n % 10) as nat)));
        text
    }
}

// ---- attribute names ----

/// The text that `str::to_lowercase` makes of a text.
pub uninterp spec fn lowercase(text: Seq<char>) -> Seq<char>;

/// An attribute name as keys know it: without spaces, in lower case.
pub open spec fn common_view(name: Seq<char>) -> Seq<char> {
    lowercase(name.filter(|c: char| c != ' '))
}

/// The names of a list as keys know them.
pub open spec fn common_names(names: Seq<String>) -> Set<Seq<char>> {
    names.map_values(|name: String| common_view(name@)).to_set()
}

/// `str::replace` of the space by nothing leaves the other characters, in their order.
#[verifier::external_body]
fn without_spaces(name: &str) -> (res: String)
    ensures
        res@ == name@.filter(|c: char| c != ' '),
{
    name.replace(" ", "")
}

/// `str::to_lowercase` gives the lower case form of a text, which is a function of the
/// text.
#[verifier::external_body]
fn to_lowercase(text: &str) -> (res: String)
    ensures
        res@ == lowercase(text@),
{
    text.to_lowercase()
}

/// The name of an attribute as keys know it.
pub fn attr_common_view(name: &str) -> (res: String)
    ensures
        res@ == common_view(name@),
{
    to_lowercase(without_spaces(name).as_str())
}

// ---- schemas ----

/// The schema of the attributes that a credential shows.
pub fn build_credential_schema(attrs: &AttributeNames) -> (res: Result<
    cl::CredentialSchema,
    Error,
>)
    ensures
        res matches Ok(schema) && cl::schema_attrs(schema) == common_names(attrs@),
{
    let mut builder = match cl::Issuer::new_credential_schema_builder() {
        Ok(builder) => builder,
        Err(err) => return Err(Error::Signature(err)),
    };
    let names = attrs.names();
    let mut i: usize = 0;
    while i < names.len()
        invariant
            i <= names.len(),
            cl::schema_builder_attrs(builder) == common_names(names@.take(i as int)),
        decreases names.len() - i,
    {
        let name = attr_common_view(names[i].as_str());
        proof {
            lemma_common_names_push(names@.take(i as int), names@[i as int]);
            assert(names@.take(i as int).push(names@[i as int]) =~= names@.take(i + 1));
        }
        match builder.add_attr(name.as_str()) {
            Ok(()) => {},
            Err(err) => return Err(Error::Signature(err)),
        }
        i += 1;
    }
    assert(names@.take(names@.len() as int) =~= names@);
    match builder.finalize() {
        Ok(schema) => Ok(schema),
        Err(err) => Err(Error::Signature(err)),
    }
}

proof fn lemma_common_names_push(names: Seq<String>, name: String)
    ensures
        common_names(names.push(name)) == common_names(names).insert(common_view(name@)),
        common_names(Seq::<String>::empty()) == Set::<Seq<char>>::empty(),
{
    let f = |n: String| common_view(n@);
    assert(names.push(name).map_values(f) =~= names.map_values(f).push(common_view(name@)));
    let texts = names.map_values(f);
    let text = common_view(name@);
    assert forall|t: Seq<char>| texts.push(text).to_set().contains(t) <==> texts.to_set().insert(
        text,
    ).contains(t) by {
        if texts.contains(t) {
            let i = choose|i: int| 0 <= i < texts.len() && texts[i] == t;
            assert(texts.push(text)[i] == t);
        }
        assert(texts.push(text)[texts.len() as int] == text);
    }
    assert(texts.push(text).to_set() =~= texts.to_set().insert(text));
    assert(Seq::<String>::empty().map_values(f) =~= Seq::empty());
    assert(common_names(Seq::<String>::empty()) =~= Set::<Seq<char>>::empty());
}

/// The one attribute that every credential has and none shows.
pub open spec fn link_secret_names() -> Set<Seq<char>> {
    set!["master_secret"@]
}

/// The schema of the attributes that a credential does not show.
pub fn build_non_credential_schema() -> (res: Result<cl::NonCredentialSchema, Error>)
    ensures
        res matches Ok(schema) && cl::non_schema_attrs(schema) == link_secret_names(),
{
    let mut builder = match cl::Issuer::new_non_credential_schema_builder() {
        Ok(builder) => builder,
        Err(err) => return Err(Error::Signature(err)),
    };
    match builder.add_attr("master_secret") {
        Ok(()) => {},
        Err(err) => return Err(Error::Signature(err)),
    }
    assert(cl::non_schema_builder_attrs(builder) =~= link_secret_names());
    match builder.finalize() {
        Ok(schema) => Ok(schema),
        Err(err) => Err(Error::Signature(err)),
    }
}

// ---- values ----

/// The numbers to be signed, under the names that keys know; where two names come out the
/// same, the later value counts.
pub open spec fn encoded_entries(entries: Seq<(String, AttributeValues)>) -> Map<
    Seq<char>,
    Option<int>,
>
    decreases entries.len(),
{
    if entries.len() == 0 {
        Map::empty()
    } else {
        encoded_entries(entries.drop_last()).insert(
            common_view(entries.last().0@),
            cl::decimal_value(entries.last().1.encoded@),
        )
    }
}

/// Each encoded value can be read as a number.
pub open spec fn entries_are_numbers(entries: Seq<(String, AttributeValues)>) -> bool {
    forall|i: int|
        0 <= i < entries.len() ==> cl::decimal_value((#[trigger] entries[i]).1.encoded@) is Some
}

/// No encoded value has a NUL character.
pub open spec fn entries_lack_nul(entries: Seq<(String, AttributeValues)>) -> bool {
    forall|i: int| 0 <= i < entries.len() ==> !(#[trigger] entries[i]).1.encoded@.contains('\0')
}

/// Whether a text has a NUL character.
fn has_nul(text: &str) -> (res: bool)
    ensures
        res == text@.contains('\0'),
{
    let ghost chars = text@;
    for c in iter: text.chars()
        invariant
            iter.seq() == chars,
            chars == text@,
            forall|i: int| 0 <= i < iter.index() ==> #[trigger] chars[i] != '\0',
    {
        if c == '\0' {
            return true;
        }
    }
    false
}

/// Whether no encoded value has a NUL character.
pub fn values_lack_nul(values: &CredentialValues) -> (res: bool)
    ensures
        res == entries_lack_nul(values@),
{
    let entries = values.entries();
    let mut i: usize = 0;
    while i < entries.len()
        invariant
            i <= entries.len(),
            entries@ == values@,
            forall|j: int| 0 <= j < i ==> !(#[trigger] entries@[j]).1.encoded@.contains('\0'),
        decreases entries.len() - i,
    {
        if has_nul(entries[i].1.encoded.as_str()) {
            assert(values@[i as int].1.encoded@.contains('\0'));
            return false;
        }
        i += 1;
    }
    true
}

/// The error of an encoded value that could not be read as a number when it was added, under the
/// name that keys know, to the values to be signed.
pub open spec fn value_not_read(err: Error, entries: Seq<(String, AttributeValues)>) -> bool {
    exists|
        i: int,
        builder: &mut cl::CredentialValuesBuilder,
        attr: &str,
        value: &str,
        outcome: Result<(), cl::ClError>,
    |
        {
            &&& 0 <= i < entries.len()
            &&& attr@ == common_view((#[trigger] entries[i]).0@)
            &&& value@ == entries[i].1.encoded@
            &&& cl::decimal_value(value@) is None
            &&& outcome matches Err(source) && err == Error::Signature(source)
            &&& #[trigger] call_ensures(
                cl::CredentialValuesBuilder::add_dec_known,
                (builder, attr, value),
                outcome,
            )
        }
}

/// The values to be signed, from those that people see. An encoded value that is not a
/// number is refused.
pub fn build_credential_values(values: &CredentialValues) -> (res: Result<
    cl::ClCredentialValues,
    Error,
>)
    requires
        entries_lack_nul(values@),
    ensures
        res is Ok <==> entries_are_numbers(values@),
        res matches Ok(built) ==> cl::value_entries(built) == encoded_entries(values@),
        res matches Err(err) ==> value_not_read(err, values@),
{
    let mut builder = match cl::Issuer::new_credential_values_builder() {
        Ok(builder) => builder,
        Err(err) => return Err(Error::Signature(err)),
    };
    let entries = values.entries();
    assert(cl::values_builder_entries(builder) =~= encoded_entries(entries@.take(0)));
    let mut i: usize = 0;
    while i < entries.len()
        invariant
            i <= entries.len(),
            entries@ == values@,
            entries_lack_nul(values@),
            entries_are_numbers(entries@.take(i as int)),
            cl::values_builder_entries(builder) == encoded_entries(entries@.take(i as int)),
        decreases entries.len() - i,
    {
        let name = attr_common_view(entries[i].0.as_str());
        assert(!entries@[i as int].1.encoded@.contains('\0'));
        let added = builder.add_dec_known(name.as_str(), entries[i].1.encoded.as_str());
        match added {
            Ok(()) => {},
            Err(err) => {
                assert(cl::decimal_value(values@[i as int].1.encoded@) is None);
                return Err(Error::Signature(err));
            },
        }
        proof {
            let taken = entries@.take(i + 1);
            assert(taken.drop_last() =~= entries@.take(i as int));
            assert forall|j: int| 0 <= j < taken.len() implies cl::decimal_value(
                (#[trigger] taken[j]).1.encoded@,
            ) is Some by {
                if j < i {
                    assert(taken[j] == entries@.take(i as int)[j]);
                }
            }
        }
        i += 1;
    }
    assert(entries@.take(entries@.len() as int) =~= entries@);
    match builder.finalize() {
        Ok(built) => Ok(built),
        Err(err) => Err(Error::Signature(err)),
    }
}

} // verus!
