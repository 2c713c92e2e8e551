use crate::symbols::{StructShape, SymbolRecord, SymbolTable};
use vstd::prelude::*;

verus! {

/// The text of an optional string.
pub open spec fn text_of(o: Option<String>) -> Option<Seq<char>> {
    match o {
        Some(s) => Some(s@),
        None => None,
    }
}

/// A documented field: its name and its documentation.
pub type FieldView = (Seq<char>, Option<Seq<char>>);

/// A struct document: name, documentation, and its named fields in order.
pub type DocView = (Seq<char>, Option<Seq<char>>, Seq<FieldView>);

/// Why a struct could not be documented.
#[derive(Debug, Clone, Copy, PartialEq, Eq, Structural)]
pub enum DocumentError {
    /// The symbol with this id has no name (for a struct: no name, or an empty one).
    Unnamed(u32),
    /// The table does not hold this field id.
    MissingField(u32),
}

pub struct Field {
    pub name: String,
    pub docs: Option<String>,
}

impl View for Field {
    type V = FieldView;

    open spec fn view(&self) -> FieldView {
        (self.name@, text_of(self.docs))
    }
}

/// What the walker hands on for each struct it reaches.
pub struct StructDocument {
    pub name: String,
    pub docs: Option<String>,
    pub fields: Vec<Field>,
}

impl View for StructDocument {
    type V = DocView;

    open spec fn view(&self) -> DocView {
        (self.name@, text_of(self.docs), self.fields@.map_values(|f: Field| f@))
    }
}

/// The documented fields named by `ids[from..]`, each looked up in `table`;
/// the first id that is missing or unnamed is the error.
pub open spec fn field_docs(table: SymbolTable, ids: Seq<u32>, from: int) -> Result<Seq<FieldView>, DocumentError>
    decreases ids.len() - from,
{
    if from < 0 || from >= ids.len() {
        Ok(seq![])
    } else if !table.entries().contains_key(ids[from]) {
        Err(DocumentError::MissingField(ids[from]))
    } else {
        let field = table.entries()[ids[from]];
        match field.name {
            None => Err(DocumentError::Unnamed(ids[from])),
            Some(name) => match field_docs(table, ids, from + 1) {
                Ok(rest) => Ok(seq![(name@, text_of(field.docs))] + rest),
                Err(e) => Err(e),
            },
        }
    }
}

/// The document of struct `id` with record `item` and layout `shape`: only
/// named fields are listed, and a struct without a name, or with an empty
/// one, has none.
pub open spec fn struct_doc(table: SymbolTable, id: u32, item: SymbolRecord, shape: StructShape) -> Result<DocView, DocumentError> {
    match item.name {
        None => Err(DocumentError::Unnamed(id)),
        Some(name) => if name@.len() == 0 {
            Err(DocumentError::Unnamed(id))
        } else {
            match shape {
            StructShape::Plain(ids) => match field_docs(table, ids@, 0) {
                Ok(fields) => Ok((name@, text_of(item.docs), fields)),
                Err(e) => Err(e),
            },
                _ => Ok((name@, text_of(item.docs), seq![])),
            }
        },
    }
}

fn clone_text(o: &Option<String>) -> (r: Option<String>)
    ensures
        text_of(r) == text_of(*o),
{
    match o {
        Some(s) => Some(s.clone()),
        None => None,
    }
}

/// Builds the document of struct `id`, looking its fields up in the struct's own table.
pub fn document_struct(item: &SymbolRecord, id: u32, shape: &StructShape, table: &SymbolTable) -> (r: Result<StructDocument, DocumentError>)
    ensures
        match struct_doc(*table, id, *item, *shape) {
            Ok(d) => r matches Ok(doc) && doc@ == d,
            Err(e) => r == Err::<StructDocument, DocumentError>(e),
        },
{
    let name = match &item.name {
        Some(n) => n.clone(),
        None => return Err(DocumentError::Unnamed(id)),
    };
    if name.as_str().is_empty() {
        return Err(DocumentError::Unnamed(id));
    }
    let mut fields: Vec<Field> = Vec::new();
    if let StructShape::Plain(ids) = shape {
        let mut i: usize = 0;
        while i < ids.len()
            invariant
                i <= ids@.len(),
                *shape == StructShape::Plain(*ids),
                item.name matches Some(n) && n@.len() > 0,
                field_docs(*table, ids@, 0) == (match field_docs(*table, ids@, i as int) {
                    Ok(rest) => Ok(fields@.map_values(|f: Field| f@) + rest),
                    Err(e) => Err::<Seq<FieldView>, DocumentError>(e),
                }),
            decreases ids@.len() - i,
        {
            let fid = ids[i];
            let field = match table.get(fid) {
                Some(f) => f,
                None => {
                    assert(field_docs(*table, ids@, i as int) == Err::<Seq<FieldView>, DocumentError>(DocumentError::MissingField(fid)));
                    return Err(DocumentError::MissingField(fid));
                },
            };
            let fname = match &field.name {
                Some(n) => n.clone(),
                None => {
                    assert(field_docs(*table, ids@, i as int) == Err::<Seq<FieldView>, DocumentError>(DocumentError::Unnamed(fid)));
                    return Err(DocumentError::Unnamed(fid));
                },
            };
            let ghost before = fields@.map_values(|f: Field| f@);
            let new_field = Field { name: fname, docs: clone_text(&field.docs) };
            fields.push(new_field);
            proof {
                assert(fields@.map_values(|f: Field| f@) =~= before.push(new_field@));
                match field_docs(*table, ids@, i + 1) {
                    Ok(rest) => {
                        assert(before + (seq![new_field@] + rest) =~= before.push(new_field@) + rest);
                    },
                    Err(_) => {},
                }
            }
            i = i + 1;
        }
        proof {
            assert(fields@.map_values(|f: Field| f@) + seq![] =~= fields@.map_values(|f: Field| f@));
        }
    } else {
        proof {
            assert(fields@.map_values(|f: Field| f@) =~= seq![]);
        }
    }
    Ok(StructDocument { name, docs: clone_text(&item.docs), fields })
}

/// The list of field names as the document writes it: each name followed by ", ".
pub open spec fn name_list(fields: Seq<FieldView>) -> Seq<char>
    decreases fields.len(),
{
    if fields.len() == 0 {
        Seq::empty()
    } else {
        name_list(fields.drop_last()) + fields.last().0 + ", "@
    }
}

/// One paragraph for each documented field, in order; undocumented fields are left out.
pub open spec fn field_details(fields: Seq<FieldView>) -> Seq<char>
    decreases fields.len(),
{
    if fields.len() == 0 {
        Seq::empty()
    } else {
        let f = fields.last();
        field_details(fields.drop_last()) + match f.1 {
            Some(d) => "More details about the "@ + f.0 + " field:\n\n"@ + d + "\n\n"@,
            None => Seq::empty(),
        }
    }
}

/// The text of a struct document.
pub open spec fn rendered(doc: DocView) -> Seq<char> {
    doc.0 + " is a struct.\n\n"@ + match doc.1 {
        Some(d) => d + "\n\n"@,
        None => Seq::empty(),
    } + if doc.2.len() == 0 {
        Seq::empty()
    } else {
        "It has the following fields: "@ + name_list(doc.2) + "\n\n"@ + field_details(doc.2)
    }
}

impl StructDocument {
    /// The document as text: the struct's name and documentation, then its
    /// field names and each documented field's documentation.
    pub fn render(&self) -> (r: String)
        ensures
            r@ == rendered(self@),
    {
        let ghost fs = self@.2;
        let mut out = String::new();
        out.append(self.name.as_str());
        out.append(" is a struct.\n\n");
        if let Some(d) = &self.docs {
            out.append(d.as_str());
            out.append("\n\n");
        }
        let ghost head = out@;
        if self.fields.len() > 0 {
            out.append("It has the following fields: ");
            let ghost start = out@;
            let mut i: usize = 0;
            while i < self.fields.len()
                invariant
                    i <= fs.len(),
                    fs == self.fields@.map_values(|f: Field| f@),
                    out@ == start + name_list(fs.take(i as int)),
                decreases fs.len() - i,
            {
                out.append(self.fields[i].name.as_str());
                out.append(", ");
                assert(fs.take(i + 1).drop_last() =~= fs.take(i as int));
                i = i + 1;
            }
            assert(fs.take(fs.len() as int) =~= fs);
            out.append("\n\n");
            let ghost middle = out@;
            let mut j: usize = 0;
            while j < self.fields.len()
                invariant
                    j <= fs.len(),
                    fs == self.fields@.map_values(|f: Field| f@),
                    out@ == middle + field_details(fs.take(j as int)),
                decreases fs.len() - j,
            {
                let field = &self.fields[j];
                if let Some(d) = &field.docs {
                    out.append("More details about the ");
                    out.append(field.name.as_str());
                    out.append(" field:\n\n");
                    out.append(d.as_str());
                    out.append("\n\n");
                }
                assert(fs.take(j + 1).drop_last() =~= fs.take(j as int));
                j = j + 1;
            }
            assert(out@ =~= rendered(self@));
        } else {
            assert(out@ =~= rendered(self@));
        }
        out
    }
}

} // verus!
