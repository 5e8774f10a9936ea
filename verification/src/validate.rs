//! The content validation pipeline.
//!
//! An incoming document is checked against a content type's schema,
//! field by field in schema order: a present value must satisfy the
//! field's type, a required field must be present, and only declared,
//! type-valid entries are kept — unknown keys are dropped, not
//! reported. Validation stops at the first failing field.

use crate::json::{Document, Jv};
use crate::schema::{fields_view, value_matches, Field, FieldV};
use vstd::prelude::*;

verus! {

/// Why a document was rejected: the first failing field, in schema
/// order, named by its display id.
#[derive(Debug)]
pub enum ValidationError {
    TypeMismatch(String),
    MissingRequiredField(String),
}

impl ValidationError {
    /// The display id of the field that failed.
    pub fn display_id(&self) -> (r: &String)
        ensures
            r@ == match self {
                ValidationError::TypeMismatch(d) => d@,
                ValidationError::MissingRequiredField(d) => d@,
            },
    {
        match self {
            ValidationError::TypeMismatch(d) => d,
            ValidationError::MissingRequiredField(d) => d,
        }
    }
}

/// The outcome validation must produce: the filtered document, or the
/// first failure in schema order.
pub enum ValidationOutcome {
    Valid(Map<Seq<char>, Jv>),
    TypeMismatch(Seq<char>),
    MissingRequired(Seq<char>),
}

/// What validating `doc` against `fields` yields, processing fields in
/// order and keeping exactly the declared, present, type-valid entries.
pub open spec fn validate_spec(fields: Seq<FieldV>, doc: Map<Seq<char>, Jv>) -> ValidationOutcome
    decreases fields.len(),
{
    if fields.len() == 0 {
        ValidationOutcome::Valid(Map::empty())
    } else {
        let f = fields.first();
        if doc.contains_key(f.display_id) {
            if value_matches(f.field_type, doc[f.display_id]) {
                match validate_spec(fields.drop_first(), doc) {
                    ValidationOutcome::Valid(m) => ValidationOutcome::Valid(
                        m.insert(f.display_id, doc[f.display_id]),
                    ),
                    o => o,
                }
            } else {
                ValidationOutcome::TypeMismatch(f.display_id)
            }
        } else if f.required {
            ValidationOutcome::MissingRequired(f.display_id)
        } else {
            validate_spec(fields.drop_first(), doc)
        }
    }
}

/// Whether some field of the schema declares the key `k`.
pub open spec fn key_declared(fields: Seq<FieldV>, k: Seq<char>) -> bool {
    exists|i: int| 0 <= i < fields.len() && fields[i].display_id == k
}

/// A document accepted by validation is filtered, never invented: the
/// result holds exactly the declared keys that were present, each with
/// the document's own value.
pub proof fn lemma_valid_map(fields: Seq<FieldV>, doc: Map<Seq<char>, Jv>, m: Map<Seq<char>, Jv>)
    requires
        validate_spec(fields, doc) == ValidationOutcome::Valid(m),
    ensures
        forall|k: Seq<char>| #[trigger]
            m.contains_key(k) <==> key_declared(fields, k) && doc.contains_key(k),
        forall|k: Seq<char>| #[trigger] m.contains_key(k) ==> m[k] == doc[k],
    decreases fields.len(),
{
    if fields.len() == 0 {
        assert(forall|k: Seq<char>| !key_declared(fields, k));
    } else {
        let f = fields.first();
        let rest = fields.drop_first();
        let d = f.display_id;
        assert forall|k: Seq<char>| key_declared(rest, k) implies key_declared(fields, k) by {
            let i = choose|i: int| 0 <= i < rest.len() && rest[i].display_id == k;
            assert(fields[i + 1].display_id == k);
        }
        assert forall|k: Seq<char>| key_declared(fields, k) && k != d implies key_declared(
            rest,
            k,
        ) by {
            let i = choose|i: int| 0 <= i < fields.len() && fields[i].display_id == k;
            assert(rest[i - 1].display_id == k);
        }
        if doc.contains_key(d) && value_matches(f.field_type, doc[d]) {
            let o_rest = validate_spec(rest, doc);
            match o_rest {
                ValidationOutcome::Valid(mp) => {
                    lemma_valid_map(rest, doc, mp);
                    assert(m == mp.insert(d, doc[d]));
                    assert(key_declared(fields, d)) by {
                        assert(fields[0].display_id == d);
                    }
                },
                _ => {
                    assert(false);
                },
            }
        } else if doc.contains_key(d) {
            assert(false);
        } else if f.required {
            assert(false);
        } else {
            lemma_valid_map(rest, doc, m);
            assert(forall|k: Seq<char>| #[trigger] m.contains_key(k) ==> k != d);
        }
    }
}

/// Validation reads only the declared keys: two documents that agree on
/// every declared key (present in one iff in the other, with the same
/// value) validate to the same outcome.
pub proof fn lemma_validate_frame(
    fields: Seq<FieldV>,
    d1: Map<Seq<char>, Jv>,
    d2: Map<Seq<char>, Jv>,
)
    requires
        forall|k: Seq<char>| #[trigger]
            key_declared(fields, k) ==> (d1.contains_key(k) <==> d2.contains_key(k)) && (
            d1.contains_key(k) ==> d1[k] == d2[k]),
    ensures
        validate_spec(fields, d1) == validate_spec(fields, d2),
    decreases fields.len(),
{
    if fields.len() > 0 {
        let f = fields.first();
        let rest = fields.drop_first();
        let d = f.display_id;
        assert(key_declared(fields, d)) by {
            assert(fields[0].display_id == d);
        }
        assert forall|k: Seq<char>| #[trigger] key_declared(rest, k) implies key_declared(
            fields,
            k,
        ) by {
            let i = choose|i: int| 0 <= i < rest.len() && rest[i].display_id == k;
            assert(fields[i + 1].display_id == k);
        }
        lemma_validate_frame(rest, d1, d2);
    }
}

/// Success is owed exactly when every present declared value matches
/// its field's type and every required field is present.
pub proof fn lemma_validate_accepts(fields: Seq<FieldV>, doc: Map<Seq<char>, Jv>)
    requires
        forall|i: int| #![trigger fields[i]]
            0 <= i < fields.len() ==> (doc.contains_key(fields[i].display_id) ==> value_matches(
                fields[i].field_type,
                doc[fields[i].display_id],
            )),
        forall|i: int| #![trigger fields[i]]
            0 <= i < fields.len() ==> (fields[i].required ==> doc.contains_key(
                fields[i].display_id,
            )),
    ensures
        validate_spec(fields, doc) is Valid,
    decreases fields.len(),
{
    if fields.len() > 0 {
        let rest = fields.drop_first();
        assert forall|i: int| 0 <= i < rest.len() implies #[trigger] rest[i] == fields[i + 1] by {}
        assert(fields[0] == fields.first());
        lemma_validate_accepts(rest, doc);
    }
}

/// Idempotence: a document that validation has accepted validates
/// again, unchanged — the filtered document is a fixed point.
pub proof fn lemma_validate_idempotent(
    fields: Seq<FieldV>,
    doc: Map<Seq<char>, Jv>,
    m: Map<Seq<char>, Jv>,
)
    requires
        validate_spec(fields, doc) == ValidationOutcome::Valid(m),
    ensures
        validate_spec(fields, m) == ValidationOutcome::Valid(m),
    decreases fields.len(),
{
    lemma_valid_map(fields, doc, m);
    if fields.len() == 0 {
        assert(validate_spec(fields, m) == ValidationOutcome::Valid(Map::<Seq<char>, Jv>::empty()));
    } else {
        let f = fields.first();
        let rest = fields.drop_first();
        let d = f.display_id;
        assert(fields[0].display_id == d);
        if doc.contains_key(d) && value_matches(f.field_type, doc[d]) {
            match validate_spec(rest, doc) {
                ValidationOutcome::Valid(mp) => {
                    lemma_valid_map(rest, doc, mp);
                    assert(m == mp.insert(d, doc[d]));
                    lemma_validate_idempotent(rest, doc, mp);
                    assert forall|k: Seq<char>| #[trigger]
                        key_declared(rest, k) implies (mp.contains_key(k) <==> m.contains_key(k))
                        && (mp.contains_key(k) ==> mp[k] == m[k]) by {
                        if k == d {
                            assert(mp.contains_key(d) <==> doc.contains_key(d));
                        }
                    }
                    lemma_validate_frame(rest, mp, m);
                    assert(m.contains_key(d));
                    assert(m[d] == doc[d]);
                    assert(validate_spec(fields, m) == ValidationOutcome::Valid(
                        mp.insert(d, m[d]),
                    ));
                },
                _ => {
                    assert(false);
                },
            }
        } else if !doc.contains_key(d) && !f.required {
            lemma_validate_idempotent(rest, doc, m);
            assert(!m.contains_key(d));
            assert(validate_spec(fields, m) == validate_spec(rest, m));
        } else {
            assert(false);
        }
    }
}

/// A schema-exact document — every key declared, every declared value
/// type-valid, every required field present — validates to itself,
/// unchanged.
pub proof fn lemma_validate_schema_exact(fields: Seq<FieldV>, doc: Map<Seq<char>, Jv>)
    requires
        forall|i: int| #![trigger fields[i]]
            0 <= i < fields.len() ==> (doc.contains_key(fields[i].display_id) ==> value_matches(
                fields[i].field_type,
                doc[fields[i].display_id],
            )),
        forall|i: int| #![trigger fields[i]]
            0 <= i < fields.len() ==> (fields[i].required ==> doc.contains_key(
                fields[i].display_id,
            )),
        forall|k: Seq<char>| #[trigger] doc.contains_key(k) ==> key_declared(fields, k),
    ensures
        validate_spec(fields, doc) == ValidationOutcome::Valid(doc),
{
    lemma_validate_accepts(fields, doc);
    match validate_spec(fields, doc) {
        ValidationOutcome::Valid(m) => {
            lemma_valid_map(fields, doc, m);
            assert forall|k: Seq<char>| #[trigger] doc.contains_key(k) implies m.contains_key(
                k,
            ) by {
                assert(key_declared(fields, k));
            }
            assert(m =~= doc);
        },
        _ => {
            assert(false);
        },
    }
}

/// Validate `doc` against the schema `fields`.
///
/// On success the result holds exactly the declared keys present in
/// `doc`, each with its (type-valid) value; on failure it names the
/// first failing field in schema order.
pub fn validate_document(fields: &Vec<Field>, doc: &Document) -> (r: Result<
    Document,
    ValidationError,
>)
    requires
        doc.wf(),
    ensures
        ({
            let o = validate_spec(fields_view(fields@), doc@);
            match r {
                Ok(out) => out.wf() && o == ValidationOutcome::Valid(out@),
                Err(ValidationError::TypeMismatch(d)) => o == ValidationOutcome::TypeMismatch(d@),
                Err(ValidationError::MissingRequiredField(d)) => o
                    == ValidationOutcome::MissingRequired(d@),
            }
        }),
{
    let ghost all = fields_view(fields@);
    let mut out = Document::new();
    let n: usize = fields.len();
    let mut i: usize = 0;
    proof {
        assert(all.skip(0) =~= all);
        match validate_spec(all, doc@) {
            ValidationOutcome::Valid(m) => {
                assert(out@.union_prefer_right(m) =~= m);
            },
            _ => {},
        }
    }
    while i < n
        invariant
            doc.wf(),
            out.wf(),
            n == fields@.len(),
            all == fields_view(fields@),
            i <= n,
            validate_spec(all, doc@) == match validate_spec(all.skip(i as int), doc@) {
                ValidationOutcome::Valid(m) => ValidationOutcome::Valid(
                    out@.union_prefer_right(m),
                ),
                o => o,
            },
        decreases n - i,
    {
        let field = &fields[i];
        let ghost suffix = all.skip(i as int);
        proof {
            assert(suffix.len() == n - i);
            assert(suffix.first() == all[i as int]);
            assert(all[i as int] == field@);
            assert(suffix.drop_first() =~= all.skip(i as int + 1));
        }
        match doc.get(&field.display_id) {
            Some(value) => {
                if field.field_type_matches(value) {
                    let v = value.deep_clone();
                    let ghost pre_out = out@;
                    out.insert(field.display_id.clone(), v);
                    proof {
                        let d = field.display_id@;
                        match validate_spec(all.skip(i as int + 1), doc@) {
                            ValidationOutcome::Valid(m) => {
                                lemma_valid_map(all.skip(i as int + 1), doc@, m);
                                assert(out@.union_prefer_right(m) =~= pre_out.union_prefer_right(
                                    m.insert(d, doc@[d]),
                                ));
                            },
                            _ => {},
                        }
                    }
                } else {
                    return Err(ValidationError::TypeMismatch(field.display_id.clone()));
                }
            },
            None => {
                if field.required {
                    return Err(ValidationError::MissingRequiredField(field.display_id.clone()));
                }
            },
        }
        i = i + 1;
    }
    proof {
        assert(all.skip(n as int) =~= Seq::<FieldV>::empty());
        assert(out@.union_prefer_right(Map::empty()) =~= out@);
    }
    Ok(out)
}

} // verus!
