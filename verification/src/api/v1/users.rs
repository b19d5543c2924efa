//! Rules of the users endpoints: what input is accepted, how a listing is
//! paged and filtered, and which error answers each failure.
use vstd::prelude::*;

use crate::error::{is_validation_outcome, AppError, ErrorView};
use crate::text::{
    all_whitespace, contains_char, law_trim_idempotent, law_trim_ignores_padding, str_chars, trim, trim_str, utf8_len, utf8_len_exceeds,
};

verus! {

/// Query string of `GET /api/v1/users`.
pub struct UsersQuery {
    pub page: Option<i64>,
    pub page_size: Option<i64>,
    pub email: Option<String>,
    pub name: Option<String>,
    pub search: Option<String>,
}

/// Body of `POST /api/v1/users`.
pub struct CreateUserRequest {
    pub name: String,
    pub email: String,
}

/// Body of `PUT /api/v1/users/{id}`; absent fields are left unchanged.
pub struct UpdateUserRequest {
    pub name: Option<String>,
    pub email: Option<String>,
}

/// Longest name or email accepted, in UTF-8 bytes after trimming.
pub const MAX_FIELD_BYTES: usize = 255;

/// Whether a trimmed email has the accepted shape: non-empty, holding an
/// `@` that is neither its first nor its last character.
pub open spec fn email_shape_ok(e: Seq<char>) -> bool {
    &&& e.len() > 0
    &&& e.contains('@')
    &&& e[0] != '@'
    &&& e.last() != '@'
}

/// The rule on a user name: the message of the first check it fails.
pub open spec fn name_rule(name: Seq<char>) -> Result<(), Seq<char>> {
    let n = trim(name);
    if n.len() == 0 {
        Err("name cannot be empty"@)
    } else if utf8_len(n) > 255 {
        Err("name must not exceed 255 characters"@)
    } else {
        Ok(())
    }
}

/// The rule on an email; `shape_msg` is the message for a malformed one.
pub open spec fn email_rule(email: Seq<char>, shape_msg: Seq<char>) -> Result<(), Seq<char>> {
    let e = trim(email);
    if !email_shape_ok(e) {
        Err(shape_msg)
    } else if utf8_len(e) > 255 {
        Err("email must not exceed 255 characters"@)
    } else {
        Ok(())
    }
}

/// The rule on a new user: the name is checked first, then the email.
pub open spec fn user_input_rule(name: Seq<char>, email: Seq<char>) -> Result<(), Seq<char>> {
    match name_rule(name) {
        Err(m) => Err(m),
        Ok(()) => email_rule(email, "email must contain '@' and be properly formatted"@),
    }
}

/// The rule on an update: each field that is present is checked, name first.
pub open spec fn user_update_rule(name: Option<Seq<char>>, email: Option<Seq<char>>) -> Result<
    (),
    Seq<char>,
> {
    let n = match name {
        Some(v) => name_rule(v),
        None => Ok(()),
    };
    match n {
        Err(m) => Err(m),
        Ok(()) => match email {
            Some(v) => email_rule(v, "email must contain '@'"@),
            None => Ok(()),
        },
    }
}

/// The view of an optional text field.
pub open spec fn opt_view(s: Option<String>) -> Option<Seq<char>> {
    match s {
        Some(v) => Some(v@),
        None => None,
    }
}

fn check_name(name: &str) -> (r: Result<(), AppError>)
    ensures
        is_validation_outcome(r, name_rule(name@)),
{
    let t = trim_str(name);
    let chars = str_chars(t);
    if chars.len() == 0 {
        return Err(AppError::validation("name cannot be empty"));
    }
    if utf8_len_exceeds(&chars, MAX_FIELD_BYTES) {
        return Err(AppError::validation("name must not exceed 255 characters"));
    }
    Ok(())
}

fn check_email(email: &str, shape_msg: &str) -> (r: Result<(), AppError>)
    ensures
        is_validation_outcome(r, email_rule(email@, shape_msg@)),
{
    let t = trim_str(email);
    let chars = str_chars(t);
    let n = chars.len();
    if n == 0 || !contains_char(&chars, '@') || chars[0] == '@' || chars[n - 1] == '@' {
        return Err(AppError::validation(shape_msg));
    }
    if utf8_len_exceeds(&chars, MAX_FIELD_BYTES) {
        return Err(AppError::validation("email must not exceed 255 characters"));
    }
    Ok(())
}

/// Checks the fields of a new user; the error names the first rule broken.
pub fn validate_user_input(name: &str, email: &str) -> (r: Result<(), AppError>)
    ensures
        is_validation_outcome(r, user_input_rule(name@, email@)),
{
    check_name(name)?;
    check_email(email, "email must contain '@' and be properly formatted")
}

/// Checks the fields present in an update; the error names the first rule broken.
pub fn validate_user_update(req: &UpdateUserRequest) -> (r: Result<(), AppError>)
    ensures
        is_validation_outcome(r, user_update_rule(opt_view(req.name), opt_view(req.email))),
{
    match &req.name {
        Some(n) => {
            check_name(n.as_str())?;
        },
        None => {},
    }
    match &req.email {
        Some(e) => check_email(e.as_str(), "email must contain '@'"),
        None => Ok(()),
    }
}


/// The checks look only at trimmed values: trimming the fields first gives
/// the same outcome. A new user is stored with trimmed fields, so a stored
/// user passes the checks again.
pub proof fn law_checks_see_trimmed_values(name: Seq<char>, email: Seq<char>)
    ensures
        user_input_rule(trim(name), trim(email)) == user_input_rule(name, email),
{
    law_trim_idempotent(name);
    law_trim_idempotent(email);
}

/// Leading or trailing whitespace around the fields never changes the
/// outcome of the checks, neither which rule fails nor its message.
pub proof fn law_whitespace_padding_keeps_outcome(
    name: Seq<char>,
    email: Seq<char>,
    name_before: Seq<char>,
    name_after: Seq<char>,
    email_before: Seq<char>,
    email_after: Seq<char>,
)
    requires
        all_whitespace(name_before),
        all_whitespace(name_after),
        all_whitespace(email_before),
        all_whitespace(email_after),
    ensures
        user_input_rule(name_before + name + name_after, email_before + email + email_after)
            == user_input_rule(name, email),
        user_update_rule(
            Some(name_before + name + name_after),
            Some(email_before + email + email_after),
        ) == user_update_rule(Some(name), Some(email)),
{
    law_trim_ignores_padding(name_before, name, name_after);
    law_trim_ignores_padding(email_before, email, email_after);
}

/// A name passes exactly when, trimmed, it is non-empty and at most 255
/// UTF-8 bytes long; an all-whitespace name is refused as empty.
pub proof fn law_name_accepted_exactly(name: Seq<char>)
    ensures
        name_rule(name) is Ok <==> (trim(name).len() > 0 && utf8_len(trim(name)) <= 255),
        trim(name).len() == 0 ==> name_rule(name) == Err::<(), Seq<char>>(
            "name cannot be empty"@,
        ),
        trim(name).len() > 0 && utf8_len(trim(name)) > 255 ==> name_rule(name) == Err::<
            (),
            Seq<char>,
        >("name must not exceed 255 characters"@),
{
}

/// An email passes exactly when, trimmed, it holds an `@` with at least one
/// character on each side, starts and ends with something else, and is at
/// most 255 UTF-8 bytes long.
pub proof fn law_email_accepted_exactly(email: Seq<char>, shape_msg: Seq<char>)
    ensures
        email_rule(email, shape_msg) is Ok <==> ({
            let e = trim(email);
            &&& exists|i: int| 0 < i < e.len() - 1 && e[i] == '@'
            &&& e[0] != '@'
            &&& e[e.len() - 1] != '@'
            &&& utf8_len(e) <= 255
        }),
        !trim(email).contains('@') ==> email_rule(email, shape_msg) == Err::<(), Seq<char>>(
            shape_msg,
        ),
        trim(email).len() > 0 && (trim(email)[0] == '@' || trim(email).last() == '@')
            ==> email_rule(email, shape_msg) == Err::<(), Seq<char>>(shape_msg),
{
    let e = trim(email);
    if email_shape_ok(e) {
        let i = choose|i: int| 0 <= i < e.len() && e[i] == '@';
        assert(0 < i < e.len() - 1);
    }
}

/// Whether an optional name passes (an absent one always does).
pub open spec fn name_present_ok(name: Option<Seq<char>>) -> bool {
    match name {
        Some(v) => trim(v).len() > 0 && utf8_len(trim(v)) <= 255,
        None => true,
    }
}

/// Whether an optional email passes (an absent one always does).
pub open spec fn email_present_ok(email: Option<Seq<char>>) -> bool {
    match email {
        Some(w) => email_shape_ok(trim(w)) && utf8_len(trim(w)) <= 255,
        None => true,
    }
}

/// A new user is accepted exactly when both fields pass; a failing name is
/// reported before the email, and a malformed email with its own message.
pub proof fn law_new_user_accepted_exactly(name: Seq<char>, email: Seq<char>)
    ensures
        user_input_rule(name, email) is Ok <==> name_present_ok(Some(name)) && email_present_ok(
            Some(email),
        ),
        name_rule(name) is Err ==> user_input_rule(name, email) == name_rule(name),
        name_rule(name) is Ok && !email_shape_ok(trim(email)) ==> user_input_rule(name, email)
            == Err::<(), Seq<char>>("email must contain '@' and be properly formatted"@),
{
}

/// An update is accepted exactly when every field it carries passes its own
/// rule: a bad email is refused whether or not a name comes with it, and a
/// bad name is reported before the email.
pub proof fn law_update_checks_every_present_field(
    name: Option<Seq<char>>,
    email: Option<Seq<char>>,
)
    ensures
        user_update_rule(name, email) is Ok <==> name_present_ok(name) && email_present_ok(email),
        match name {
            Some(v) => name_rule(v) is Err ==> user_update_rule(name, email) == name_rule(v),
            None => true,
        },
        match email {
            Some(w) => name_present_ok(name) && !email_shape_ok(trim(w)) ==> user_update_rule(
                name,
                email,
            ) == Err::<(), Seq<char>>("email must contain '@'"@),
            None => true,
        },
        match email {
            Some(w) => email_rule(w, "email must contain '@'"@) is Err ==> user_update_rule(
                name,
                email,
            ) is Err,
            None => true,
        },
{
}

/// Page requested, defaulting to the first; pages start at 1.
pub open spec fn effective_page(page: Option<i64>) -> i64 {
    let p = match page {
        Some(v) => v,
        None => 1,
    };
    if p < 1 {
        1
    } else {
        p
    }
}

/// Page size requested, defaulting to 20 and held between 1 and 100.
pub open spec fn effective_page_size(page_size: Option<i64>) -> i64 {
    let p = match page_size {
        Some(v) => v,
        None => 20,
    };
    if p < 1 {
        1
    } else if p > 100 {
        100
    } else {
        p
    }
}

/// Number of rows skipped before the requested page.
pub open spec fn spec_offset(q: UsersQuery) -> int {
    (effective_page(q.page) - 1) * effective_page_size(q.page_size)
}

/// Paging: the page is the requested one when it is at least 1, else the
/// first; the page size is the requested one clamped to 1..=100, 20 when
/// absent; the offset skips every earlier page in full.
pub proof fn law_paging_follows_request(q: UsersQuery)
    ensures
        effective_page(q.page) >= 1,
        match q.page {
            Some(p) => (p >= 1 ==> effective_page(q.page) == p) && (p < 1 ==> effective_page(q.page)
                == 1),
            None => effective_page(q.page) == 1,
        },
        1 <= effective_page_size(q.page_size) <= 100,
        match q.page_size {
            Some(z) => (1 <= z <= 100 ==> effective_page_size(q.page_size) == z) && (z < 1
                ==> effective_page_size(q.page_size) == 1) && (z > 100 ==> effective_page_size(
                q.page_size,
            ) == 100),
            None => effective_page_size(q.page_size) == 20,
        },
        match (q.page, q.page_size) {
            (Some(p), Some(z)) => p >= 1 && 1 <= z <= 100 ==> spec_offset(q) == (p - 1) * z,
            _ => true,
        },
        q.page is None ==> spec_offset(q) == 0,
{
    let z = effective_page_size(q.page_size) as int;
    assert(0 * z == 0) by (nonlinear_arith);
}

/// A filter pattern is the trimmed value with one `%` on each side.
pub proof fn law_pattern_wraps_trimmed_value(s: Seq<char>)
    ensures
        like_pattern_of(s).len() == trim(s).len() + 2,
        like_pattern_of(s)[0] == '%',
        like_pattern_of(s)[like_pattern_of(s).len() - 1] == '%',
        like_pattern_of(s).subrange(1, like_pattern_of(s).len() - 1) == trim(s),
{
    assert(like_pattern_of(s).subrange(1, like_pattern_of(s).len() - 1) =~= trim(s));
}

/// The pattern that matches values containing `s`, trimmed, anywhere.
pub open spec fn like_pattern_of(s: Seq<char>) -> Seq<char> {
    seq!['%'] + trim(s) + seq!['%']
}

/// The pattern for an optional filter value.
pub open spec fn opt_pattern(s: Option<String>) -> Option<Seq<char>> {
    match s {
        Some(v) => Some(like_pattern_of(v@)),
        None => None,
    }
}

/// How a listing request is answered: which page, and which
/// case-insensitive substring filters apply.
pub struct ListPlan {
    pub page: i64,
    pub page_size: i64,
    pub offset: i64,
    /// Pattern that the email must match.
    pub email_pattern: Option<String>,
    /// Pattern that the name must match.
    pub name_pattern: Option<String>,
    /// Pattern that the name or the email must match.
    pub search_pattern: Option<String>,
}

/// Whether the offset of a listing fits in an `i64`, the condition under
/// which `plan_user_listing` may be called.
pub fn listing_offset_fits(q: &UsersQuery) -> (r: bool)
    ensures
        r == (spec_offset(*q) <= i64::MAX),
{
    let requested_page = match q.page {
        Some(v) => v,
        None => 1,
    };
    let page = if requested_page < 1 {
        1
    } else {
        requested_page
    };
    let requested_size = match q.page_size {
        Some(v) => v,
        None => 20,
    };
    let page_size = if requested_size < 1 {
        1
    } else if requested_size > 100 {
        100
    } else {
        requested_size
    };
    let skipped_pages = page - 1;
    let limit = i64::MAX / page_size;
    proof {
        let m = i64::MAX as int;
        let k = skipped_pages as int;
        let z = page_size as int;
        let l = limit as int;
        assert(l * z <= m && m < (l + 1) * z) by (nonlinear_arith)
            requires
                z >= 1,
                l == m / z,
        ;
        assert(k <= l ==> k * z <= l * z) by (nonlinear_arith)
            requires
                z >= 1,
                k >= 0,
        ;
        assert(k > l ==> k * z >= (l + 1) * z) by (nonlinear_arith)
            requires
                z >= 1,
                k >= 0,
        ;
    }
    skipped_pages <= limit
}

/// The `LIKE` pattern `%<trimmed s>%`.
pub fn like_pattern(s: &str) -> (r: String)
    ensures
        r@ == like_pattern_of(s@),
{
    proof {
        reveal_strlit("%");
    }
    let t = trim_str(s);
    String::from_str("%").concat(t).concat("%")
}

fn opt_like_pattern(s: &Option<String>) -> (r: Option<String>)
    ensures
        opt_view(r) == opt_pattern(*s),
{
    match s {
        Some(v) => Some(like_pattern(v.as_str())),
        None => None,
    }
}

/// Pages and filters of a user listing. The offset is computed in `i64`
/// arithmetic, so it must fit there (see `listing_offset_fits`).
pub fn plan_user_listing(q: &UsersQuery) -> (r: ListPlan)
    requires
        spec_offset(*q) <= i64::MAX,
    ensures
        r.page == effective_page(q.page),
        r.page_size == effective_page_size(q.page_size),
        r.offset == spec_offset(*q),
        opt_view(r.email_pattern) == opt_pattern(q.email),
        opt_view(r.name_pattern) == opt_pattern(q.name),
        opt_view(r.search_pattern) == opt_pattern(q.search),
{
    let requested_page = match q.page {
        Some(v) => v,
        None => 1,
    };
    let page = if requested_page < 1 {
        1
    } else {
        requested_page
    };
    let requested_size = match q.page_size {
        Some(v) => v,
        None => 20,
    };
    let page_size = if requested_size < 1 {
        1
    } else if requested_size > 100 {
        100
    } else {
        requested_size
    };
    assert(0 <= (page - 1) * page_size) by (nonlinear_arith)
        requires
            page >= 1,
            page_size >= 1,
    ;
    let offset = (page - 1) * page_size;
    ListPlan {
        page,
        page_size,
        offset,
        email_pattern: opt_like_pattern(&q.email),
        name_pattern: opt_like_pattern(&q.name),
        search_pattern: opt_like_pattern(&q.search),
    }
}

/// The 128-bit value of the UUID written in `text`, or `None` where `text`
/// is no UUID in a form that the `uuid` crate parses.
pub uninterp spec fn uuid_text_value(text: Seq<char>) -> Option<u128>;

/// Calls `uuid::Uuid::parse_str` and returns the parsed UUID as its 128-bit
/// big-endian value (`Uuid::as_u128`), or `None` where parsing fails.
/// Trusted: the result is the named value of `uuid_text_value` on the same
/// text; which texts parse is left to that crate.
#[verifier::external_body]
fn parse_uuid(text: &str) -> (r: Option<u128>)
    ensures
        r == uuid_text_value(text@),
{
    match uuid::Uuid::parse_str(text) {
        Ok(id) => Some(id.as_u128()),
        Err(_) => None,
    }
}

/// The user id that a parse produced, or the validation error for text that
/// is no UUID.
pub fn user_id_from_parse(parsed: Option<u128>) -> (r: Result<u128, AppError>)
    ensures
        parsed is Some <==> r is Ok,
        r matches Ok(v) ==> parsed == Some(v),
        r matches Err(e) ==> e@ == ErrorView::Validation("invalid UUID format"@),
{
    match parsed {
        Some(v) => Ok(v),
        None => Err(AppError::validation("invalid UUID format")),
    }
}

/// The user id in a request path.
pub fn parse_user_id(id: &str) -> (r: Result<u128, AppError>)
    ensures
        uuid_text_value(id@) is Some <==> r is Ok,
        r matches Ok(v) ==> uuid_text_value(id@) == Some(v),
        r matches Err(e) ==> e@ == ErrorView::Validation("invalid UUID format"@),
{
    user_id_from_parse(parse_uuid(id))
}

/// Whether a driver error reports a violated unique (or primary key)
/// constraint. It depends on the error value alone: the database error's
/// kind, which the driver derives from the error's SQLSTATE code.
pub uninterp spec fn unique_violation_of(e: sqlx::Error) -> bool;

/// Calls `sqlx::Error::as_database_error` and, where the error came from
/// the database, its `DatabaseError::is_unique_violation`; `false` for any
/// other error. Trusted: the answer is the named `unique_violation_of` of the
/// same error; which errors are unique violations is left to the driver.
#[verifier::external_body]
fn is_unique_violation(e: &sqlx::Error) -> (r: bool)
    ensures
        r == unique_violation_of(*e),
{
    match e.as_database_error() {
        Some(db) => db.is_unique_violation(),
        None => false,
    }
}

/// The error that answers a failed insert: a conflict where the email is
/// taken, else the database error itself.
pub fn classify_insert_error(e: sqlx::Error, unique_violation: bool) -> (r: AppError)
    ensures
        unique_violation ==> r@ == ErrorView::Conflict("email already exists"@),
        !unique_violation ==> r == AppError::Database(e),
{
    if unique_violation {
        AppError::conflict("email already exists")
    } else {
        AppError::Database(e)
    }
}

/// The error that answers a failed insert of a new user: a conflict where
/// the driver reports a unique violation (the email is taken), else the
/// database error itself.
pub fn insert_error(e: sqlx::Error) -> (r: AppError)
    ensures
        unique_violation_of(e) ==> r@ == ErrorView::Conflict("email already exists"@),
        !unique_violation_of(e) ==> r == AppError::Database(e),
{
    let unique = is_unique_violation(&e);
    classify_insert_error(e, unique)
}

/// A looked-up row, or `NotFound` where there was none.
pub fn found_or_not_found<T>(row: Option<T>) -> (r: Result<T, AppError>)
    ensures
        row is Some <==> r is Ok,
        r matches Ok(v) ==> row == Some(v),
        r matches Err(e) ==> e@ == ErrorView::NotFound,
{
    match row {
        Some(v) => Ok(v),
        None => Err(AppError::NotFound),
    }
}

/// Outcome of a delete that affected `rows_affected` rows: `NotFound` where
/// no row had the id.
pub fn deletion_result(rows_affected: u64) -> (r: Result<(), AppError>)
    ensures
        rows_affected == 0 <==> r is Err,
        r matches Err(e) ==> e@ == ErrorView::NotFound,
{
    if rows_affected == 0 {
        Err(AppError::NotFound)
    } else {
        Ok(())
    }
}

} // verus!
