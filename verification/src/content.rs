//! Content types, their fields, and content items.
//!
//! A content type names a schema owned by a service; fields extend that
//! schema one at a time. Content items are JSON documents checked by
//! the validation pipeline before any write: a partially validated
//! document never reaches the store.

use crate::json::Document;
use crate::schema::{fields_view, Field, FieldType};
use crate::store::{
    lemma_find_content_type_none, ContentItemRow, ContentTypeRow, Store,
};
use crate::validate::{validate_document, validate_spec, ValidationError, ValidationOutcome};
use vstd::prelude::*;

verus! {

/// The request payload naming a new content type.
pub struct NewContentType {
    pub name: String,
}

/// The request payload for a new field of a content type.
pub struct NewField {
    pub display_name: String,
    pub field_type: FieldType,
    pub required: bool,
}

/// The request payload carrying a new content item's document.
pub struct NewContentItem {
    pub data: Document,
}

/// One declared field, as a content type reports it.
pub struct FieldSummary {
    pub display_id: String,
    pub field_type: FieldType,
    pub required: bool,
}

/// A content type with its declared schema, as read back.
pub struct ContentType {
    pub id: u64,
    pub name: String,
    pub fields: Vec<FieldSummary>,
}

/// A content item as read back: its id and its stored document.
pub struct ContentItem {
    pub id: Option<u128>,
    pub data: Document,
}

/// Why a content operation failed.
#[derive(Debug)]
pub enum ContentError {
    /// The named content type does not exist.
    UnknownContentType,
    /// The named service does not exist.
    UnknownService,
    /// The named content item does not exist.
    UnknownContentItem,
    /// An update carried no entries at all.
    EmptyDocument,
    /// A field with this display id already exists on the content type.
    DuplicateField,
    /// The document was rejected; the first failing field is named.
    Validation(ValidationError),
    /// A unique constraint or id counter refused the insert.
    Storage,
}

impl ContentError {
    /// The HTTP status a content failure surfaces as: 404 for an absent
    /// entity, 400 for a rejected request, 500 only for storage itself.
    pub open spec fn status_spec(self) -> int {
        match self {
            ContentError::UnknownContentType => 404,
            ContentError::UnknownService => 404,
            ContentError::UnknownContentItem => 404,
            ContentError::EmptyDocument => 400,
            ContentError::DuplicateField => 400,
            ContentError::Validation(_) => 400,
            ContentError::Storage => 500,
        }
    }

    /// The HTTP status of this failure.
    pub fn status_code(&self) -> (r: u16)
        ensures
            r as int == self.status_spec(),
    {
        match self {
            ContentError::UnknownContentType => 404,
            ContentError::UnknownService => 404,
            ContentError::UnknownContentItem => 404,
            ContentError::EmptyDocument => 400,
            ContentError::DuplicateField => 400,
            ContentError::Validation(_) => 400,
            ContentError::Storage => 500,
        }
    }
}

impl Store {
    /// Create a content type for an existing service and return its id.
    pub fn create_content_type(&mut self, service_id: &String, input: NewContentType) -> (r:
        Result<u64, ContentError>)
        requires
            old(self).wf(),
        ensures
            final(self).wf(),
            r is Err ==> *final(self) == *old(self),
            r matches Err(ContentError::UnknownService) <==> old(self).service_spec(service_id@)
                is None,
            r matches Err(ContentError::Storage) <==> old(self).service_spec(service_id@) is Some
                && old(self).next_content_type_id == u64::MAX,
            r is Ok <==> old(self).service_spec(service_id@) is Some && old(
                self,
            ).next_content_type_id < u64::MAX,
            r matches Ok(id) ==> {
                &&& id == old(self).next_content_type_id
                &&& old(self).content_type_spec(id) is None
                &&& final(self).content_types@ == old(self).content_types@.push(
                    (ContentTypeRow { id, name: input.name, service_id: *service_id }),
                )
            },
            final(self).services@ == old(self).services@,
            final(self).roles@ == old(self).roles@,
            final(self).role_permissions@ == old(self).role_permissions@,
            final(self).fields@ == old(self).fields@,
            final(self).content_items@ == old(self).content_items@,
            final(self).users@ == old(self).users@,
            final(self).sessions@ == old(self).sessions@,
    {
        if self.find_service(service_id).is_none() {
            return Err(ContentError::UnknownService);
        }
        if self.next_content_type_id == u64::MAX {
            return Err(ContentError::Storage);
        }
        let id = self.next_content_type_id;
        proof {
            lemma_find_content_type_none(self.content_types@, id);
        }
        self.content_types.push(
            ContentTypeRow { id, name: input.name, service_id: service_id.clone() },
        );
        self.next_content_type_id = id + 1;
        Ok(id)
    }

    /// Whether some field of the content type already uses the display
    /// id.
    pub open spec fn display_id_taken_spec(
        self,
        content_type_id: u64,
        display_id: Seq<char>,
    ) -> bool {
        exists|j: int|
            0 <= j < self.fields@.len() && #[trigger] self.fields@[j].content_type_id
                == content_type_id && self.fields@[j].display_id@ == display_id
    }

    /// Whether some field of the content type already uses the display
    /// id.
    fn display_id_taken(&self, content_type_id: u64, display_id: &String) -> (r: bool)
        ensures
            r == self.display_id_taken_spec(content_type_id, display_id@),
    {
        let n: usize = self.fields.len();
        let mut j: usize = 0;
        while j < n
            invariant
                n == self.fields@.len(),
                j <= n,
                forall|i: int|
                    0 <= i < j ==> !(#[trigger] self.fields@[i].content_type_id == content_type_id
                        && self.fields@[i].display_id@ == display_id@),
            decreases n - j,
        {
            if self.fields[j].content_type_id == content_type_id && self.fields[j].display_id
                == *display_id {
                return true;
            }
            j = j + 1;
        }
        false
    }

    /// Declare a field on an existing content type and return its id.
    /// A display id may be declared once per content type.
    pub fn create_field(&mut self, content_type_id: u64, input: NewField) -> (r: Result<
        u64,
        ContentError,
    >)
        requires
            old(self).wf(),
        ensures
            final(self).wf(),
            r is Err ==> *final(self) == *old(self),
            r matches Err(ContentError::UnknownContentType) <==> old(self).content_type_spec(
                content_type_id,
            ) is None,
            r matches Err(ContentError::DuplicateField) <==> old(self).content_type_spec(
                content_type_id,
            ) is Some && old(self).display_id_taken_spec(content_type_id, input.display_name@),
            r matches Err(ContentError::Storage) <==> old(self).content_type_spec(content_type_id)
                is Some && !old(self).display_id_taken_spec(content_type_id, input.display_name@)
                && old(self).next_field_id == u64::MAX,
            r is Ok <==> old(self).content_type_spec(content_type_id) is Some && !old(
                self,
            ).display_id_taken_spec(content_type_id, input.display_name@) && old(
                self,
            ).next_field_id < u64::MAX,
            r matches Ok(id) ==> {
                &&& id == old(self).next_field_id
                &&& final(self).fields@ == old(self).fields@.push(
                    (Field {
                        id,
                        content_type_id,
                        display_id: input.display_name,
                        field_type: input.field_type,
                        required: input.required,
                    }),
                )
            },
            final(self).services@ == old(self).services@,
            final(self).roles@ == old(self).roles@,
            final(self).role_permissions@ == old(self).role_permissions@,
            final(self).content_types@ == old(self).content_types@,
            final(self).content_items@ == old(self).content_items@,
            final(self).users@ == old(self).users@,
            final(self).sessions@ == old(self).sessions@,
    {
        if self.find_content_type(content_type_id).is_none() {
            return Err(ContentError::UnknownContentType);
        }
        if self.display_id_taken(content_type_id, &input.display_name) {
            return Err(ContentError::DuplicateField);
        }
        if self.next_field_id == u64::MAX {
            return Err(ContentError::Storage);
        }
        let id = self.next_field_id;
        self.fields.push(
            Field {
                id,
                content_type_id,
                display_id: input.display_name,
                field_type: input.field_type,
                required: input.required,
            },
        );
        self.next_field_id = id + 1;
        Ok(id)
    }

    /// Read a content type with its declared schema, in declaration
    /// order.
    pub fn get_content_type(&self, content_type_id: u64) -> (r: Option<ContentType>)
        ensures
            r is None <==> self.content_type_spec(content_type_id) is None,
            r matches Some(ct) ==> {
                &&& self.content_type_spec(content_type_id) matches Some(row) && ct.id == row.id
                    && ct.name@ == row.name@
                &&& ct.fields@.len() == self.fields_spec(content_type_id).len()
                &&& forall|j: int|
                    0 <= j < ct.fields@.len() ==> {
                        &&& (#[trigger] ct.fields@[j]).display_id@ == self.fields_spec(
                            content_type_id,
                        )[j].display_id@
                        &&& ct.fields@[j].field_type == self.fields_spec(content_type_id)[j].field_type
                        &&& ct.fields@[j].required == self.fields_spec(content_type_id)[j].required
                    }
            },
    {
        let row = match self.find_content_type(content_type_id) {
            None => {
                return None;
            },
            Some(row) => row,
        };
        let fields = self.fields_for(content_type_id);
        let mut summaries: Vec<FieldSummary> = Vec::new();
        let count: usize = fields.len();
        let mut j: usize = 0;
        while j < count
            invariant
                count == fields@.len(),
                j <= count,
                summaries@.len() == j,
                fields@.len() == self.fields_spec(content_type_id).len(),
                forall|i: int|
                    0 <= i < fields@.len() ==> #[trigger] fields@[i]@ == self.fields_spec(
                        content_type_id,
                    )[i]@,
                forall|i: int|
                    0 <= i < j ==> {
                        &&& (#[trigger] summaries@[i]).display_id@ == self.fields_spec(
                            content_type_id,
                        )[i].display_id@
                        &&& summaries@[i].field_type == self.fields_spec(content_type_id)[i].field_type
                        &&& summaries@[i].required == self.fields_spec(content_type_id)[i].required
                    },
            decreases count - j,
        {
            proof {
                assert(fields@[j as int]@ == self.fields_spec(content_type_id)[j as int]@);
            }
            let f = &fields[j];
            summaries.push(
                FieldSummary {
                    display_id: f.display_id.clone(),
                    field_type: f.field_type,
                    required: f.required,
                },
            );
            j = j + 1;
        }
        Some(ContentType { id: row.id, name: row.name.clone(), fields: summaries })
    }

    /// Store a validated content item under a given id. The document is
    /// checked against the content type's schema and only the filtered
    /// document is written; the write happens exactly when the content
    /// type exists, the id is free, and the document validates.
    pub fn insert_content_item_with_id(
        &mut self,
        content_type_id: u64,
        content_item_id: u128,
        data: &Document,
    ) -> (r: Result<(), ContentError>)
        requires
            old(self).wf(),
            data.wf(),
        ensures
            final(self).wf(),
            r is Err ==> *final(self) == *old(self),
            r matches Err(ContentError::UnknownContentType) <==> old(self).content_type_spec(
                content_type_id,
            ) is None,
            r matches Err(ContentError::Storage) <==> old(self).content_type_spec(content_type_id)
                is Some && old(self).content_item_spec(content_item_id) is Some,
            ({
                let o = validate_spec(fields_view(old(self).fields_spec(content_type_id)), data@);
                &&& (r matches Err(ContentError::Validation(ValidationError::TypeMismatch(d)))
                    ==> o == ValidationOutcome::TypeMismatch(d@))
                &&& (r matches Err(ContentError::Validation(
                    ValidationError::MissingRequiredField(d),
                )) ==> o == ValidationOutcome::MissingRequired(d@))
                &&& (r is Err ==> (r matches Err(ContentError::UnknownContentType) || r matches Err(
                    ContentError::Storage,
                ) || r matches Err(ContentError::Validation(_))))
                &&& (old(self).content_type_spec(content_type_id) is Some && old(
                    self,
                ).content_item_spec(content_item_id) is None ==> (r is Ok <==> o is Valid))
                &&& (r is Ok ==> {
                    &&& final(self).content_items@.len() == old(self).content_items@.len() + 1
                    &&& forall|j: int|
                        0 <= j < old(self).content_items@.len() ==> final(self).content_items@[j]
                            == old(self).content_items@[j]
                    &&& final(self).content_items@.last().id == content_item_id
                    &&& final(self).content_items@.last().content_type_id == content_type_id
                    &&& final(self).content_items@.last().created_at == final(self).content_items@.last().updated_at
                    &&& o == ValidationOutcome::Valid(final(self).content_items@.last().data@)
                })
            }),
            final(self).services@ == old(self).services@,
            final(self).roles@ == old(self).roles@,
            final(self).role_permissions@ == old(self).role_permissions@,
            final(self).content_types@ == old(self).content_types@,
            final(self).fields@ == old(self).fields@,
            final(self).users@ == old(self).users@,
            final(self).sessions@ == old(self).sessions@,
    {
        if self.find_content_type(content_type_id).is_none() {
            return Err(ContentError::UnknownContentType);
        }
        if self.find_content_item(content_item_id).is_some() {
            return Err(ContentError::Storage);
        }
        let fields = self.fields_for(content_type_id);
        proof {
            lemma_fields_view_pointwise(fields@, self.fields_spec(content_type_id));
        }
        let valid_data = match validate_document(&fields, data) {
            Ok(d) => d,
            Err(e) => {
                return Err(ContentError::Validation(e));
            },
        };
        proof {
            crate::store::lemma_find_content_item_none(self.content_items@, content_item_id);
        }
        let now = now_unix();
        self.content_items.push(
            ContentItemRow {
                id: content_item_id,
                content_type_id,
                data: valid_data,
                created_at: now,
                updated_at: now,
            },
        );
        Ok(())
    }

    /// Store a validated content item under a fresh random id.
    pub fn create_content_item(&mut self, content_type_id: u64, input: &NewContentItem) -> (r:
        Result<u128, ContentError>)
        requires
            old(self).wf(),
            input.data.wf(),
        ensures
            final(self).wf(),
            r is Err ==> *final(self) == *old(self),
            r matches Err(ContentError::UnknownContentType) <==> old(self).content_type_spec(
                content_type_id,
            ) is None,
            ({
                let o = validate_spec(fields_view(old(self).fields_spec(content_type_id)), input.data@);
                match r {
                    Ok(id) => {
                        &&& old(self).content_item_spec(id) is None
                        &&& final(self).content_items@.len() == old(self).content_items@.len() + 1
                        &&& forall|j: int|
                            0 <= j < old(self).content_items@.len() ==> final(self).content_items@[j]
                                == old(self).content_items@[j]
                        &&& final(self).content_items@.last().id == id
                        &&& final(self).content_items@.last().content_type_id == content_type_id
                        &&& o == ValidationOutcome::Valid(final(self).content_items@.last().data@)
                    },
                    Err(ContentError::Validation(ValidationError::TypeMismatch(d))) => o
                        == ValidationOutcome::TypeMismatch(d@),
                    Err(ContentError::Validation(ValidationError::MissingRequiredField(d))) => o
                        == ValidationOutcome::MissingRequired(d@),
                    _ => true,
                }
            }),
            final(self).services@ == old(self).services@,
            final(self).roles@ == old(self).roles@,
            final(self).role_permissions@ == old(self).role_permissions@,
            final(self).content_types@ == old(self).content_types@,
            final(self).fields@ == old(self).fields@,
            final(self).users@ == old(self).users@,
            final(self).sessions@ == old(self).sessions@,
    {
        let id = new_item_id();
        match self.insert_content_item_with_id(content_type_id, id, &input.data) {
            Ok(()) => Ok(id),
            Err(e) => Err(e),
        }
    }

    /// Read a content item by id; its stored document comes back as it
    /// was written.
    pub fn get_content_item(&self, content_item_id: u128) -> (r: Option<ContentItem>)
        ensures
            r is None <==> self.content_item_spec(content_item_id) is None,
            r matches Some(item) ==> {
                &&& self.content_item_spec(content_item_id) matches Some(row) && item.id == Some(
                    row.id,
                ) && item.data@ == row.data@
            },
    {
        match self.find_content_item(content_item_id) {
            None => None,
            Some(row) => Some(ContentItem { id: Some(row.id), data: row.data.deep_clone() }),
        }
    }

    /// Read every content item of one content type, in storage order.
    pub fn get_content_items(&self, content_type_id: u64) -> (r: Vec<ContentItem>)
        ensures
            r@.len() == items_of_seq(self.content_items@, content_type_id).len(),
            forall|j: int|
                0 <= j < r@.len() ==> {
                    &&& (#[trigger] r@[j]).id == Some(
                        items_of_seq(self.content_items@, content_type_id)[j].id,
                    )
                    &&& r@[j].data@ == items_of_seq(self.content_items@, content_type_id)[j].data@
                },
    {
        let n: usize = self.content_items.len();
        let mut out: Vec<ContentItem> = Vec::new();
        let mut i: usize = 0;
        proof {
            assert(self.content_items@.take(0) =~= Seq::<ContentItemRow>::empty());
        }
        while i < n
            invariant
                n == self.content_items@.len(),
                i <= n,
                out@.len() == items_of_seq(self.content_items@.take(i as int), content_type_id).len(),
                forall|j: int|
                    0 <= j < out@.len() ==> {
                        &&& (#[trigger] out@[j]).id == Some(
                            items_of_seq(self.content_items@.take(i as int), content_type_id)[j].id,
                        )
                        &&& out@[j].data@ == items_of_seq(
                            self.content_items@.take(i as int),
                            content_type_id,
                        )[j].data@
                    },
            decreases n - i,
        {
            proof {
                let t = self.content_items@.take(i as int + 1);
                assert(t.drop_last() =~= self.content_items@.take(i as int));
                assert(t.last() == self.content_items@[i as int]);
            }
            let row = &self.content_items[i];
            if row.content_type_id == content_type_id {
                out.push(ContentItem { id: Some(row.id), data: row.data.deep_clone() });
            }
            i = i + 1;
        }
        proof {
            assert(self.content_items@.take(n as int) =~= self.content_items@);
        }
        out
    }

    /// The index of the item with the given id, if stored.
    fn find_item_index(&self, content_item_id: u128) -> (r: Option<usize>)
        ensures
            match r {
                Some(ix) => 0 <= ix < self.content_items@.len() && self.content_items@[
                    ix as int
                ].id == content_item_id && forall|j: int|
                    0 <= j < ix ==> self.content_items@[j].id != content_item_id,
                None => forall|j: int|
                    0 <= j < self.content_items@.len() ==> self.content_items@[j].id
                        != content_item_id,
            },
    {
        let n: usize = self.content_items.len();
        let mut i: usize = 0;
        while i < n
            invariant
                n == self.content_items@.len(),
                i <= n,
                forall|j: int| 0 <= j < i ==> self.content_items@[j].id != content_item_id,
            decreases n - i,
        {
            if self.content_items[i].id == content_item_id {
                return Some(i);
            }
            i = i + 1;
        }
        None
    }

    /// Update a stored content item: a non-empty document is validated
    /// against the item's own content type and the filtered document
    /// replaces the stored one. Every other item is untouched.
    pub fn update_content_item(&mut self, content_item_id: u128, input: &ContentItem) -> (r:
        Result<(), ContentError>)
        requires
            old(self).wf(),
            input.data.wf(),
        ensures
            final(self).wf(),
            r is Err ==> *final(self) == *old(self),
            r matches Err(ContentError::EmptyDocument) <==> input.data@ == Map::<
                Seq<char>,
                crate::json::Jv,
            >::empty(),
            input.data@ != Map::<Seq<char>, crate::json::Jv>::empty() ==> (r matches Err(
                ContentError::UnknownContentItem,
            ) <==> old(self).content_item_spec(content_item_id) is None),
            r is Err ==> (r matches Err(ContentError::EmptyDocument) || r matches Err(
                ContentError::UnknownContentItem,
            ) || r matches Err(ContentError::Validation(_))),
            ({
                match old(self).content_item_spec(content_item_id) {
                    Some(orig) => {
                        let o = validate_spec(
                            fields_view(old(self).fields_spec(orig.content_type_id)),
                            input.data@,
                        );
                        &&& (r matches Err(ContentError::Validation(
                            ValidationError::TypeMismatch(d),
                        )) ==> o == ValidationOutcome::TypeMismatch(d@))
                        &&& (r matches Err(ContentError::Validation(
                            ValidationError::MissingRequiredField(d),
                        )) ==> o == ValidationOutcome::MissingRequired(d@))
                        &&& (input.data@ != Map::<Seq<char>, crate::json::Jv>::empty() ==> (r is Ok
                            <==> o is Valid))
                        &&& (r is Ok ==> {
                            &&& final(self).content_items@.len() == old(self).content_items@.len()
                            &&& forall|j: int|
                                0 <= j < old(self).content_items@.len()
                                    && old(self).content_items@[j].id != content_item_id
                                    ==> final(self).content_items@[j]
                                    == old(self).content_items@[j]
                            &&& forall|j: int|
                                0 <= j < old(self).content_items@.len()
                                    && old(self).content_items@[j].id == content_item_id ==> {
                                    &&& (#[trigger] final(self).content_items@[j]).id
                                        == content_item_id
                                    &&& final(self).content_items@[j].content_type_id
                                        == orig.content_type_id
                                    &&& final(self).content_items@[j].created_at == old(
                                        self,
                                    ).content_items@[j].created_at
                                    &&& o == ValidationOutcome::Valid(
                                        final(self).content_items@[j].data@,
                                    )
                                }
                        })
                    },
                    None => true,
                }
            }),
            final(self).services@ == old(self).services@,
            final(self).roles@ == old(self).roles@,
            final(self).role_permissions@ == old(self).role_permissions@,
            final(self).content_types@ == old(self).content_types@,
            final(self).fields@ == old(self).fields@,
            final(self).users@ == old(self).users@,
            final(self).sessions@ == old(self).sessions@,
    {
        if input.data.is_empty() {
            return Err(ContentError::EmptyDocument);
        }
        let ix = match self.find_item_index(content_item_id) {
            None => {
                proof {
                    crate::store::lemma_find_content_item_none(
                        self.content_items@,
                        content_item_id,
                    );
                }
                return Err(ContentError::UnknownContentItem);
            },
            Some(ix) => ix,
        };
        proof {
            lemma_find_content_item_hit(self.content_items@, content_item_id, ix as int);
        }
        let content_type_id = self.content_items[ix].content_type_id;
        let fields = self.fields_for(content_type_id);
        proof {
            lemma_fields_view_pointwise(fields@, self.fields_spec(content_type_id));
        }
        let valid_data = match validate_document(&fields, &input.data) {
            Ok(d) => d,
            Err(e) => {
                return Err(ContentError::Validation(e));
            },
        };
        let ghost pre = self.content_items@;
        let created_at = self.content_items[ix].created_at;
        self.content_items.set(
            ix,
            ContentItemRow {
                id: content_item_id,
                content_type_id,
                data: valid_data,
                created_at,
                updated_at: now_unix(),
            },
        );
        proof {
            assert forall|j: int|
                0 <= j < pre.len() && pre[j].id == content_item_id implies j == ix as int by {
                if j != ix as int {
                    assert(pre[ix as int].id == content_item_id);
                }
            }
        }
        Ok(())
    }

    /// Delete a content item by id; reports whether a row was removed.
    pub fn delete_content_item(&mut self, content_item_id: u128) -> (deleted: bool)
        requires
            old(self).wf(),
        ensures
            final(self).wf(),
            deleted <==> old(self).content_item_spec(content_item_id) is Some,
            !deleted ==> *final(self) == *old(self),
            deleted ==> exists|ix: int|
                0 <= ix < old(self).content_items@.len() && old(self).content_items@[ix].id
                    == content_item_id && final(self).content_items@ == old(
                    self,
                ).content_items@.remove(ix),
            final(self).content_item_spec(content_item_id) is None,
            final(self).services@ == old(self).services@,
            final(self).roles@ == old(self).roles@,
            final(self).role_permissions@ == old(self).role_permissions@,
            final(self).content_types@ == old(self).content_types@,
            final(self).fields@ == old(self).fields@,
            final(self).users@ == old(self).users@,
            final(self).sessions@ == old(self).sessions@,
    {
        let ix = match self.find_item_index(content_item_id) {
            None => {
                proof {
                    crate::store::lemma_find_content_item_none(
                        self.content_items@,
                        content_item_id,
                    );
                }
                return false;
            },
            Some(ix) => ix,
        };
        proof {
            lemma_find_content_item_hit(self.content_items@, content_item_id, ix as int);
        }
        let ghost pre = self.content_items@;
        self.content_items.remove(ix);
        proof {
            assert forall|j: int|
                0 <= j < self.content_items@.len() implies self.content_items@[j].id
                != content_item_id by {
                if j < ix as int {
                    assert(self.content_items@[j] == pre[j]);
                } else {
                    assert(self.content_items@[j] == pre[j + 1]);
                }
            }
            crate::store::lemma_find_content_item_none(self.content_items@, content_item_id);
        }
        true
    }
}

/// Relies on uuid's `Uuid::new_v4`: a fresh random version-4 UUID,
/// carried as its 128-bit value; nothing is assumed about which value
/// is drawn.
#[verifier::external_body]
fn new_item_id() -> u128 {
    uuid::Uuid::new_v4().as_u128()
}

/// Relies on chrono's `Utc::now`: the clock's current time as unix
/// seconds; nothing is assumed about the value.
#[verifier::external_body]
fn now_unix() -> i64 {
    chrono::Utc::now().timestamp()
}

/// The items belonging to one content type, in storage order.
pub open spec fn items_of_seq(s: Seq<ContentItemRow>, content_type_id: u64) -> Seq<ContentItemRow>
    decreases s.len(),
{
    if s.len() == 0 {
        Seq::empty()
    } else {
        let rest = items_of_seq(s.drop_last(), content_type_id);
        if s.last().content_type_id == content_type_id {
            rest.push(s.last())
        } else {
            rest
        }
    }
}

/// Two field rows equal in view give pointwise-equal field views.
proof fn lemma_fields_view_pointwise(a: Seq<Field>, b: Seq<Field>)
    requires
        a.len() == b.len(),
        forall|j: int| 0 <= j < a.len() ==> #[trigger] a[j]@ == b[j]@,
    ensures
        fields_view(a) == fields_view(b),
{
    assert(fields_view(a) =~= fields_view(b));
}

/// An item scan that hits at `ix`, with no earlier hit, finds exactly
/// that row.
pub proof fn lemma_find_content_item_hit(s: Seq<ContentItemRow>, id: u128, ix: int)
    requires
        0 <= ix < s.len(),
        s[ix].id == id,
        forall|j: int| 0 <= j < ix ==> s[j].id != id,
    ensures
        crate::store::find_content_item_spec(s, id) == Some(s[ix]),
    decreases s.len(),
{
    if ix > 0 {
        assert forall|j: int| 0 <= j < ix - 1 implies s.drop_first()[j].id != id by {
            assert(s.drop_first()[j] == s[j + 1]);
        }
        assert(s.drop_first()[ix - 1] == s[ix]);
        lemma_find_content_item_hit(s.drop_first(), id, ix - 1);
    }
}

/// Round trip: a content item created from a valid document, then
/// fetched by its returned id, yields exactly the schema-filtered
/// document — the declared, type-valid subset of the original.
pub proof fn lemma_item_round_trip(
    s0: Store,
    s1: Store,
    content_type_id: u64,
    doc: Map<Seq<char>, crate::json::Jv>,
    id: u128,
)
    requires
        s0.wf(),
        s0.content_item_spec(id) is None,
        s1.content_items@.len() == s0.content_items@.len() + 1,
        forall|j: int|
            0 <= j < s0.content_items@.len() ==> s1.content_items@[j] == s0.content_items@[j],
        s1.content_items@.last().id == id,
        validate_spec(fields_view(s0.fields_spec(content_type_id)), doc)
            == ValidationOutcome::Valid(s1.content_items@.last().data@),
    ensures
        s1.content_item_spec(id) matches Some(row) && validate_spec(
            fields_view(s0.fields_spec(content_type_id)),
            doc,
        ) == ValidationOutcome::Valid(row.data@),
{
    crate::store::lemma_find_content_item_none(s0.content_items@, id);
    let last = s1.content_items@.len() - 1;
    assert forall|j: int| 0 <= j < last implies s1.content_items@[j].id != id by {
        assert(s1.content_items@[j] == s0.content_items@[j]);
    }
    lemma_find_content_item_hit(s1.content_items@, id, last);
}

} // verus!
