//! Export row assembly: the fixed header of the tabular export and the
//! text cells of one enriched record, in column order. The writer that
//! puts rows on disk lives outside the library.

use vstd::prelude::*;
use vstd::string::StringExecFns;
use crate::types::{link_type_label, link_type_to_text, status_to_string, LinkDetails, LinkStatusV,
    ObjectType};

verus! {

/// The column names of the tabular export, in order.
pub fn export_header() -> (r: Vec<&'static str>)
    ensures
        r@.len() == 8,
        r@[0]@ == "link_path"@,
        r@[1]@ == "target_stored"@,
        r@[2]@ == "target_real"@,
        r@[3]@ == "link_type"@,
        r@[4]@ == "status"@,
        r@[5]@ == "object_type"@,
        r@[6]@ == "created_at"@,
        r@[7]@ == "owner"@,
{
    let mut v: Vec<&'static str> = Vec::new();
    v.push("link_path");
    v.push("target_stored");
    v.push("target_real");
    v.push("link_type");
    v.push("status");
    v.push("object_type");
    v.push("created_at");
    v.push("owner");
    v
}

/// The text form of an object kind.
pub open spec fn object_type_label(o: ObjectType) -> Seq<char> {
    match o {
        ObjectType::File => "File"@,
        ObjectType::Directory => "Directory"@,
    }
}

/// The cells of one record's export row, in column order.
pub fn export_row(details: &LinkDetails) -> (r: Vec<String>)
    ensures
        r@.len() == 8,
        r@[0]@ == details.path@,
        r@[1]@ == details.target_stored@,
        r@[2]@ == details.target_real@,
        r@[3]@ == link_type_label(details.link_type),
        r@[4]@ == (match details.status@ {
            LinkStatusV::Valid => "Ok"@,
            LinkStatusV::AccessDenied => "AccessDenied"@,
            LinkStatusV::Broken(reason) => "Broken("@ + reason + ")"@,
        }),
        r@[5]@ == object_type_label(details.object_type),
        r@[6]@ == details.created_at@,
        r@[7]@ == details.owner@,
{
    let mut v: Vec<String> = Vec::new();
    v.push(details.path.clone());
    v.push(details.target_stored.clone());
    v.push(details.target_real.clone());
    let mut kind = String::new();
    kind.append(link_type_to_text(&details.link_type));
    v.push(kind);
    v.push(status_to_string(&details.status));
    let object_label = match details.object_type {
        ObjectType::File => "File",
        ObjectType::Directory => "Directory",
    };
    let mut ol = String::new();
    ol.append(object_label);
    v.push(ol);
    v.push(details.created_at.clone());
    v.push(details.owner.clone());
    v
}

} // verus!
