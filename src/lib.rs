//! The protocol engine of a WebDAV file server: the PROPFIND request parser,
//! the property resolver and multistatus builder, the depth rules of
//! recursive descent, and the decisions of MKCOL, COPY and MOVE.
use vstd::prelude::*;

pub mod depth;
pub mod handlers;
pub mod propfind;
pub mod props;
pub mod xml_model;

verus! {

} // verus!
