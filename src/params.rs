//! Request parameter records and the field rules registered on each.
use vstd::prelude::*;

use crate::validation::{
    check_number, check_text, number_violations, prefix_all, push_nested, text_violations, views,
    Rule, Validate, Violation, ViolationView, MOBILE_PHONE_PATTERN,
};

verus! {

pub const PAGE_MESSAGE: &'static str = "Page must be greater than 0";
pub const PAGE_SIZE_MESSAGE: &'static str = "Page size must be between 1 and 100";
pub const NAME_MESSAGE: &'static str = "Name must be between 1 and 16 characters long";
pub const ACCOUNT_MESSAGE: &'static str = "Account must be between 1 and 16 characters long";
pub const PASSWORD_MESSAGE: &'static str = "Password must be between 6 and 16 characters long";
pub const MOBILE_PHONE_CODE: &'static str = "invalid_mobile_phone";
pub const MOBILE_PHONE_MESSAGE: &'static str = "Invalid mobile phone number format";

/// The default page number.
pub fn one() -> (r: u64)
    ensures
        r == 1,
{
    1
}

/// The default page size.
pub fn ten() -> (r: u64)
    ensures
        r == 10,
{
    10
}

/// Pagination of a listing: a page number from 1 and a page size from 1 to
/// 100.
#[derive(Debug, Clone, Copy)]
pub struct QueryParams {
    pub page: u64,
    pub page_size: u64,
}

impl Default for QueryParams {
    fn default() -> (r: QueryParams)
        ensures
            r.page == 1 && r.page_size == 10,
    {
        QueryParams { page: one(), page_size: ten() }
    }
}

impl QueryParams {
    /// The number of items before the requested page, saturating; page 0,
    /// which validation refuses, counts as the first.
    pub fn offset(&self) -> (r: u64)
        ensures
            r == (if self.page == 0 || (self.page - 1) * self.page_size > u64::MAX {
                if self.page == 0 { 0 } else { u64::MAX }
            } else {
                ((self.page - 1) * self.page_size) as u64
            }),
    {
        if self.page == 0 {
            return 0;
        }
        let before: u64 = self.page - 1;
        let size: u64 = self.page_size;
        if size != 0 && before > u64::MAX / size {
            proof {
                assert(before * size > u64::MAX) by (nonlinear_arith)
                    requires
                        size > 0,
                        before > u64::MAX / size,
                ;
            }
            u64::MAX
        } else {
            proof {
                assert(before * size <= u64::MAX) by (nonlinear_arith)
                    requires
                        size == 0 || before <= u64::MAX / size,
                ;
            }
            before * size
        }
    }
}

pub open spec fn page_rule() -> Rule {
    Rule::Range { min: 1, max: u64::MAX, message: PAGE_MESSAGE }
}

pub open spec fn page_size_rule() -> Rule {
    Rule::Range { min: 1, max: 100, message: PAGE_SIZE_MESSAGE }
}

impl Validate for QueryParams {
    open spec fn violations_spec(&self) -> Seq<ViolationView> {
        number_violations("page"@, Some(self.page), page_rule()) + number_violations(
            "page_size"@,
            Some(self.page_size),
            page_size_rule(),
        )
    }

    fn validate(&self) -> (r: Vec<Violation>) {
        let mut out: Vec<Violation> = Vec::new();
        check_number(&mut out, "page", Some(self.page), &Rule::Range { min: 1, max: u64::MAX, message: PAGE_MESSAGE });
        check_number(&mut out, "page_size", Some(self.page_size), &Rule::Range { min: 1, max: 100, message: PAGE_SIZE_MESSAGE });
        assert(views(Seq::<Violation>::empty()) =~= Seq::<ViolationView>::empty());
        assert(views(out@) =~= self.violations_spec());
        out
    }
}

/// One page of a listing, with the total number of items.
#[derive(Debug)]
pub struct Page<T> {
    pub page: u64,
    pub page_size: u64,
    pub total: u64,
    pub items: Vec<T>,
}

impl<T> Page<T> {
    pub fn new(page: u64, page_size: u64, total: u64, items: Vec<T>) -> (r: Self)
        ensures
            r.page == page && r.page_size == page_size && r.total == total && r.items == items,
    {
        Page { page, page_size, total, items }
    }

    /// The page that `pagination` asked for.
    pub fn from_pagination(pagination: QueryParams, total: u64, items: Vec<T>) -> (r: Self)
        ensures
            r.page == pagination.page && r.page_size == pagination.page_size && r.total == total
                && r.items == items,
    {
        Self::new(pagination.page, pagination.page_size, total, items)
    }
}

pub open spec fn name_rule() -> Rule {
    Rule::Length { min: 1, max: 16, message: NAME_MESSAGE }
}

pub open spec fn account_rule() -> Rule {
    Rule::Length { min: 1, max: 16, message: ACCOUNT_MESSAGE }
}

pub open spec fn password_rule() -> Rule {
    Rule::Length { min: 6, max: 16, message: PASSWORD_MESSAGE }
}

pub open spec fn mobile_phone_rule() -> Rule {
    Rule::Pattern { pattern: MOBILE_PHONE_PATTERN, code: MOBILE_PHONE_CODE, message: MOBILE_PHONE_MESSAGE }
}

/// Credentials presented at login.
#[derive(Debug, Clone)]
pub struct LoginParams {
    pub account: String,
    pub password: String,
}

impl Validate for LoginParams {
    open spec fn violations_spec(&self) -> Seq<ViolationView> {
        text_violations("account"@, Some(self.account@), account_rule()) + text_violations(
            "password"@,
            Some(self.password@),
            password_rule(),
        )
    }

    fn validate(&self) -> (r: Vec<Violation>) {
        let mut out: Vec<Violation> = Vec::new();
        check_text(&mut out, "account", Some(&self.account), &Rule::Length { min: 1, max: 16, message: ACCOUNT_MESSAGE });
        check_text(&mut out, "password", Some(&self.password), &Rule::Length { min: 6, max: 16, message: PASSWORD_MESSAGE });
        assert(views(Seq::<Violation>::empty()) =~= Seq::<ViolationView>::empty());
        assert(views(out@) =~= self.violations_spec());
        out
    }
}

#[derive(Debug, Clone, Copy, PartialEq, Eq, Structural)]
pub enum Gender {
    Male,
    Female,
}

/// A calendar date.
#[derive(Debug, Clone, Copy, PartialEq, Eq, Structural)]
pub struct Date {
    pub year: i32,
    pub month: u32,
    pub day: u32,
}

/// A user record as submitted for creation.
#[derive(Debug, Clone)]
pub struct UserParams {
    pub name: String,
    pub gender: Gender,
    pub account: String,
    pub password: String,
    pub mobile_phone: String,
    pub birthday: Date,
    pub enabled: bool,
}

impl Validate for UserParams {
    open spec fn violations_spec(&self) -> Seq<ViolationView> {
        text_violations("name"@, Some(self.name@), name_rule()) + text_violations(
            "account"@,
            Some(self.account@),
            account_rule(),
        ) + text_violations("password"@, Some(self.password@), password_rule()) + text_violations(
            "mobile_phone"@,
            Some(self.mobile_phone@),
            mobile_phone_rule(),
        )
    }

    fn validate(&self) -> (r: Vec<Violation>) {
        let mut out: Vec<Violation> = Vec::new();
        check_text(&mut out, "name", Some(&self.name), &Rule::Length { min: 1, max: 16, message: NAME_MESSAGE });
        check_text(&mut out, "account", Some(&self.account), &Rule::Length { min: 1, max: 16, message: ACCOUNT_MESSAGE });
        check_text(&mut out, "password", Some(&self.password), &Rule::Length { min: 6, max: 16, message: PASSWORD_MESSAGE });
        check_text(&mut out, "mobile_phone", Some(&self.mobile_phone), &Rule::Pattern { pattern: MOBILE_PHONE_PATTERN, code: MOBILE_PHONE_CODE, message: MOBILE_PHONE_MESSAGE });
        assert(views(Seq::<Violation>::empty()) =~= Seq::<ViolationView>::empty());
        assert(views(out@) =~= self.violations_spec());
        out
    }
}

/// A partial update of a user record: absent fields are left alone and skip
/// their rules.
#[derive(Debug, Clone)]
pub struct UpdateUserParams {
    pub name: Option<String>,
    pub gender: Option<Gender>,
    pub account: Option<String>,
    pub password: Option<String>,
    pub mobile_phone: Option<String>,
    pub birthday: Option<Date>,
    pub enabled: Option<bool>,
}

pub open spec fn opt_string_view(v: Option<String>) -> Option<Seq<char>> {
    match v {
        Some(s) => Some(s@),
        None => None,
    }
}

impl Validate for UpdateUserParams {
    open spec fn violations_spec(&self) -> Seq<ViolationView> {
        text_violations("name"@, opt_string_view(self.name), name_rule()) + text_violations(
            "account"@,
            opt_string_view(self.account),
            account_rule(),
        ) + text_violations("password"@, opt_string_view(self.password), password_rule())
            + text_violations(
            "mobile_phone"@,
            opt_string_view(self.mobile_phone),
            mobile_phone_rule(),
        )
    }

    fn validate(&self) -> (r: Vec<Violation>) {
        let mut out: Vec<Violation> = Vec::new();
        check_text(&mut out, "name", self.name.as_ref(), &Rule::Length { min: 1, max: 16, message: NAME_MESSAGE });
        check_text(&mut out, "account", self.account.as_ref(), &Rule::Length { min: 1, max: 16, message: ACCOUNT_MESSAGE });
        check_text(&mut out, "password", self.password.as_ref(), &Rule::Length { min: 6, max: 16, message: PASSWORD_MESSAGE });
        check_text(&mut out, "mobile_phone", self.mobile_phone.as_ref(), &Rule::Pattern { pattern: MOBILE_PHONE_PATTERN, code: MOBILE_PHONE_CODE, message: MOBILE_PHONE_MESSAGE });
        assert(views(Seq::<Violation>::empty()) =~= Seq::<ViolationView>::empty());
        assert(views(out@) =~= self.violations_spec());
        out
    }
}

/// A user listing query: an optional keyword and the pagination, whose
/// violations are reported under `pagination.`.
#[derive(Debug, Clone)]
pub struct UserQueryParams {
    pub keyword: Option<String>,
    pub pagination: QueryParams,
}

impl Validate for UserQueryParams {
    open spec fn violations_spec(&self) -> Seq<ViolationView> {
        prefix_all("pagination"@, self.pagination.violations_spec())
    }

    fn validate(&self) -> (r: Vec<Violation>) {
        let mut out: Vec<Violation> = Vec::new();
        let inner = self.pagination.validate();
        push_nested(&mut out, "pagination", inner);
        assert(views(Seq::<Violation>::empty()) =~= Seq::<ViolationView>::empty());
        assert(views(out@) =~= self.violations_spec());
        out
    }
}

} // verus!
