//! Requests about invoices.

use vstd::prelude::*;
use vstd::string::*;

use crate::error;
use crate::error::{ApiError, ApiResult, ErrorKind};

verus! {

/// An answer.
#[derive(Debug)]
pub struct DataResponse<T> {
    pub data: T,
}

/// An answer with a list.
#[derive(Debug)]
pub struct ListResponse<T> {
    pub data: Vec<T>,
    pub meta: ListMeta,
}

/// What goes with a list of invoices.
#[derive(Clone, Copy, Debug, PartialEq, Eq, Structural)]
pub struct ListMeta {
    pub total: usize,
}

/// A request for invoices.
#[derive(Clone, Copy, Debug, PartialEq, Eq, Structural)]
pub struct InvoiceListParams {
    /// The most invoices to list.
    pub limit: u32,
}

/// The most invoices that are listed where the request names no number.
pub fn default_limit() -> (res: u32)
    ensures
        res == 20,
{
    20
}

impl InvoiceListParams {
    /// The most invoices that are listed: what was asked for, at most 100.
    pub fn page_limit(&self) -> (res: u32)
        ensures
            res == if self.limit <= 100 {
                self.limit
            } else {
                100
            },
    {
        if self.limit <= 100 {
            self.limit
        } else {
            100
        }
    }
}

/// The answer with a list and its length.
pub fn list_response<T>(invoices: Vec<T>) -> (res: ListResponse<T>)
    ensures
        res.data@ == invoices@,
        res.meta.total == invoices@.len(),
{
    let total: usize = invoices.len();
    ListResponse { data: invoices, meta: ListMeta { total } }
}

/// The address of the document of an invoice, which must be there.
pub fn require_pdf(invoice_pdf: Option<String>) -> (res: ApiResult<String>)
    ensures
        match invoice_pdf {
            Some(url) => res == Ok::<String, ApiError>(url),
            None => error::fails(res, ErrorKind::NotFound, "Invoice PDF not available"@),
        },
{
    match invoice_pdf {
        Some(url) => Ok(url),
        None => Err(ApiError::NotFound("Invoice PDF not available".to_string())),
    }
}

/// A list of invoices has as many as were asked for, at most 100 and 20 where nothing was asked
/// for, and tells how many it has. A document is given where there is one.
pub proof fn invoices_are_listed_as_asked(
    usual: u32,
    params: InvoiceListParams,
    limit: u32,
    pdf: Option<String>,
    address: ApiResult<String>,
)
    requires
        call_ensures(default_limit, (), usual),
        call_ensures(InvoiceListParams::page_limit, (&params,), limit),
        call_ensures(require_pdf, (pdf,), address),
    ensures
        usual == 20,
        limit <= 100,
        limit == params.limit || (params.limit > 100 && limit == 100),
        pdf matches Some(url) ==> address is Ok && address->Ok_0@ == url@,
        pdf is None ==> address is Err && address->Err_0@.0 == ErrorKind::NotFound,
{
}

/// A list has what it was made of, in order, and counts it.
pub proof fn list_counts_what_it_has<T>(invoices: Vec<T>, res: ListResponse<T>)
    requires
        call_ensures(list_response::<T>, (invoices,), res),
    ensures
        res.data@ == invoices@,
        res.meta.total == res.data@.len(),
{
}

/// An invoice without a document is told to have none.
pub proof fn missing_document_is_named(res: ApiResult<String>)
    requires
        call_ensures(require_pdf, (None,), res),
    ensures
        res matches Err(e) && (e matches ApiError::NotFound(m) && m@
            == "Invoice PDF not available"@),
{
}

} // verus!
