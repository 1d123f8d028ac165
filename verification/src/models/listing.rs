//! How a client asks for a part of a listing: by page, or by the message to start after.

use crate::error::{RequestError, RequestErrorView, ValidationError, ValidationErrorView};
use crate::models::message::MessageId;
use crate::models::user::invalid_input;
use crate::server::constants::MAX_LISTING_ELEMENTS;
use crate::text::{decimal_text, signed_to_string};
use vstd::prelude::*;

verus! {

/// The limit where the query names none.
pub const DEFAULT_LIMIT: i32 = 100;

/// The page where the query names none.
pub const DEFAULT_PAGE: i32 = 1;

/// What a client may put in the query of a listing.
#[derive(Clone, Copy, Debug, PartialEq, Eq, Structural)]
pub struct ListingQuery {
    pub limit: Option<i32>,
    pub page: Option<i32>,
    pub offset: Option<MessageId>,
}

/// How a listing is cut.
#[derive(Clone, Copy, Debug, PartialEq, Eq, Structural)]
pub enum ListingMode {
    Page { limit: i32, page: i32 },
    Offset { offset: MessageId, limit: i32 },
}

/// Why a limit is refused, if it is: it is below 1, or above the most
/// that a listing may hold.
pub open spec fn limit_error(limit: i32) -> Option<ValidationErrorView> {
    if limit < 1 {
        Some(invalid_input(decimal_text(limit as int), "limit should be >= 1"@))
    } else if limit > MAX_LISTING_ELEMENTS {
        Some(
            ValidationErrorView::LimitExceeded {
                subject: "listing limit"@,
                unit: "element"@,
                attempted: limit as nat,
                limit: MAX_LISTING_ELEMENTS as nat,
            },
        )
    } else {
        None
    }
}

/// Why a page is refused, if it is: it is below 1.
pub open spec fn page_number_error(page: i32) -> Option<ValidationErrorView> {
    if page < 1 {
        Some(invalid_input(decimal_text(page as int), "page should be >= 1"@))
    } else {
        None
    }
}

/// Why an offset is refused, if it is: it is negative.
pub open spec fn message_offset_error(offset: MessageId) -> Option<ValidationErrorView> {
    if offset < 0 {
        Some(invalid_input(decimal_text(offset as int), "offset should be >= 0"@))
    } else {
        None
    }
}

/// What a check answers for an error that it found or did not find.
pub open spec fn check_result(error: Option<ValidationErrorView>) -> Result<(), RequestErrorView> {
    match error {
        Some(e) => Err(RequestErrorView::Validation(e)),
        None => Ok(()),
    }
}

/// The result of a check with its error as sequences of characters.
pub open spec fn checked(result: Result<(), RequestError>) -> Result<(), RequestErrorView> {
    match result {
        Ok(()) => Ok(()),
        Err(e) => Err(e@),
    }
}

/// How a query cuts a listing, or why it is refused. The limit is checked
/// first. A query with an offset may name no page; without an offset it is
/// cut by page.
pub open spec fn listing_mode(query: ListingQuery) -> Result<ListingMode, RequestErrorView> {
    let limit = match query.limit {
        Some(limit) => limit,
        None => DEFAULT_LIMIT,
    };
    if limit_error(limit) is Some {
        Err(RequestErrorView::Validation(limit_error(limit).unwrap()))
    } else {
        match query.offset {
            Some(offset) => if query.page is Some {
                Err(
                    RequestErrorView::Validation(
                        invalid_input("page"@, "page cannot be used with offset mode"@),
                    ),
                )
            } else if message_offset_error(offset) is Some {
                Err(RequestErrorView::Validation(message_offset_error(offset).unwrap()))
            } else {
                Ok(ListingMode::Offset { offset, limit })
            },
            None => {
                let page = match query.page {
                    Some(page) => page,
                    None => DEFAULT_PAGE,
                };
                if page_number_error(page) is Some {
                    Err(RequestErrorView::Validation(page_number_error(page).unwrap()))
                } else {
                    Ok(ListingMode::Page { limit, page })
                }
            },
        }
    }
}

fn refuse_number(value: i64, reason: &str) -> (result: Result<(), RequestError>)
    ensures
        checked(result) == check_result(Some(invalid_input(decimal_text(value as int), reason@))),
{
    Err(
        RequestError::Validation(
            ValidationError::InvalidInput {
                value: signed_to_string(value),
                reason: reason.to_owned(),
            },
        ),
    )
}

/// Checks the limit of a listing: at least 1, at most 200.
pub fn validate_limit(limit: i32) -> (result: Result<(), RequestError>)
    ensures
        checked(result) == check_result(limit_error(limit)),
{
    if limit < 1 {
        return refuse_number(limit as i64, "limit should be >= 1");
    }
    if limit > MAX_LISTING_ELEMENTS {
        return Err(
            RequestError::Validation(
                ValidationError::LimitExceeded {
                    subject: "listing limit".to_owned(),
                    unit: "element".to_owned(),
                    attempted: limit as usize,
                    limit: MAX_LISTING_ELEMENTS as usize,
                },
            ),
        );
    }
    Ok(())
}

/// Checks the page of a listing: at least 1.
pub fn validate_page(page: i32) -> (result: Result<(), RequestError>)
    ensures
        checked(result) == check_result(page_number_error(page)),
{
    if page < 1 {
        return refuse_number(page as i64, "page should be >= 1");
    }
    Ok(())
}

/// Checks the offset of a listing of messages: not negative.
pub fn validate_message_offset(offset: MessageId) -> (result: Result<(), RequestError>)
    ensures
        checked(result) == check_result(message_offset_error(offset)),
{
    if offset < 0 {
        return refuse_number(offset, "offset should be >= 0");
    }
    Ok(())
}

impl ListingMode {
    /// Reads a query: by page where it names no offset, else by offset.
    pub fn from_query(query: ListingQuery) -> (result: Result<Self, RequestError>)
        ensures
            match result {
                Ok(mode) => listing_mode(query) == Ok::<ListingMode, RequestErrorView>(mode),
                Err(e) => listing_mode(query) == Err::<ListingMode, RequestErrorView>(e@),
            },
    {
        let limit = match query.limit {
            Some(limit) => limit,
            None => DEFAULT_LIMIT,
        };
        match validate_limit(limit) {
            Ok(()) => {},
            Err(e) => {
                return Err(e);
            },
        }
        match query.offset {
            Some(offset) => {
                if query.page.is_some() {
                    return Err(
                        RequestError::Validation(
                            ValidationError::InvalidInput {
                                value: "page".to_owned(),
                                reason: "page cannot be used with offset mode".to_owned(),
                            },
                        ),
                    );
                }
                match validate_message_offset(offset) {
                    Ok(()) => {},
                    Err(e) => {
                        return Err(e);
                    },
                }
                Ok(ListingMode::Offset { offset, limit })
            },
            None => {
                let page = match query.page {
                    Some(page) => page,
                    None => DEFAULT_PAGE,
                };
                match validate_page(page) {
                    Ok(()) => {},
                    Err(e) => {
                        return Err(e);
                    },
                }
                Ok(ListingMode::Page { limit, page })
            },
        }
    }
}

} // verus!
