//! The transaction routes' own rules: reading the user id from the token,
//! reading the fields of a transaction form, and where receipts are kept.
use vstd::prelude::*;
use crate::server::models::RecurringFrequency;
use crate::text::{chars_of, i64_to_decimal, parse_i64, parse_int_spec, signed_decimal, string_from_chars};
use crate::llm::tools::str_eq;

verus! {

/// The refusal of a token whose user id is not an integer.
pub open spec fn malformed_user_text() -> Seq<char> {
    "Malformed user authenticating token integer format"@
}

/// The numeric user id a token names: `str::parse::<i64>` of its user id,
/// refused with status 400 where that fails.
pub fn transaction_user_id(user_id: &str) -> (r: Result<i64, (u16, String)>)
    ensures
        match parse_int_spec(user_id@, true, i64::MIN as int, i64::MAX as int) {
            Ok(v) => r == Ok::<i64, (u16, String)>(v as i64),
            Err(_) => r matches Err((status, m)) && status == 400 && m@ == malformed_user_text(),
        },
{
    match parse_i64(&chars_of(user_id)) {
        Ok(v) => Ok(v),
        Err(_) => Err((400, "Malformed user authenticating token integer format".to_string())),
    }
}

/// `str::parse::<bool>` with a refusal read as `false`: only `true` is true.
pub fn form_bool(value: &str) -> (b: bool)
    ensures
        b == (value@ == "true"@),
{
    str_eq(value, "true")
}

pub open spec fn frequency_named(value: Seq<char>) -> Option<RecurringFrequency> {
    if value == "Daily"@ {
        Some(RecurringFrequency::Daily)
    } else if value == "Weekly"@ {
        Some(RecurringFrequency::Weekly)
    } else if value == "Monthly"@ {
        Some(RecurringFrequency::Monthly)
    } else {
        None
    }
}

/// The recurrence a form names; any other text names none.
pub fn form_frequency(value: &str) -> (r: Option<RecurringFrequency>)
    ensures
        r == frequency_named(value@),
{
    if str_eq(value, "Daily") {
        Some(RecurringFrequency::Daily)
    } else if str_eq(value, "Weekly") {
        Some(RecurringFrequency::Weekly)
    } else if str_eq(value, "Monthly") {
        Some(RecurringFrequency::Monthly)
    } else {
        None
    }
}

/// A new transaction as its form gives it. The price and the date stay as
/// the text sent (`None` where the form has no such field): the route reads
/// the price as a number, `0.0` where it is not one, and the date as
/// RFC 3339, the present moment where it is not one.
pub struct TransactionForm {
    pub name: String,
    pub price_text: Option<String>,
    pub description: String,
    pub datetime_text: Option<String>,
    pub category: String,
    pub is_recurring: bool,
    pub recurring_frequency: Option<RecurringFrequency>,
    pub receipt_bytes: Option<Vec<u8>>,
    pub receipt_name: Option<String>,
}

pub open spec fn opt_text(o: Option<String>) -> Option<Seq<char>> {
    match o {
        Some(s) => Some(s@),
        None => None,
    }
}

pub open spec fn opt_bytes(o: Option<Vec<u8>>) -> Option<Seq<u8>> {
    match o {
        Some(b) => Some(b@),
        None => None,
    }
}

/// The fields of a transaction form, as plain values.
pub struct FormView {
    pub name: Seq<char>,
    pub price_text: Option<Seq<char>>,
    pub description: Seq<char>,
    pub datetime_text: Option<Seq<char>>,
    pub category: Seq<char>,
    pub is_recurring: bool,
    pub recurring_frequency: Option<RecurringFrequency>,
    pub receipt_bytes: Option<Seq<u8>>,
    pub receipt_name: Option<Seq<char>>,
}

impl TransactionForm {
    pub open spec fn view_fields(&self) -> FormView {
        FormView {
            name: self.name@,
            price_text: opt_text(self.price_text),
            description: self.description@,
            datetime_text: opt_text(self.datetime_text),
            category: self.category@,
            is_recurring: self.is_recurring,
            recurring_frequency: self.recurring_frequency,
            receipt_bytes: opt_bytes(self.receipt_bytes),
            receipt_name: opt_text(self.receipt_name),
        }
    }
}

/// A form before any field is read: empty name and description, category
/// `General`, not recurring, no price, date or receipt.
pub open spec fn empty_form() -> FormView {
    FormView {
        name: Seq::empty(),
        price_text: None,
        description: Seq::empty(),
        datetime_text: None,
        category: "General"@,
        is_recurring: false,
        recurring_frequency: None,
        receipt_bytes: None,
        receipt_name: None,
    }
}

/// What one text field of the form does to it: the known fields set their
/// value (the last one sent wins); other fields change nothing.
pub open spec fn with_text_field(f: FormView, field: Seq<char>, value: Seq<char>) -> FormView {
    if field == "name"@ {
        FormView { name: value, ..f }
    } else if field == "price"@ {
        FormView { price_text: Some(value), ..f }
    } else if field == "description"@ {
        FormView { description: value, ..f }
    } else if field == "datetime"@ {
        FormView { datetime_text: Some(value), ..f }
    } else if field == "category"@ {
        FormView { category: value, ..f }
    } else if field == "isRecurring"@ {
        FormView { is_recurring: value == "true"@, ..f }
    } else if field == "recurringFrequency"@ {
        FormView { recurring_frequency: frequency_named(value), ..f }
    } else {
        f
    }
}

impl TransactionForm {
    /// A form before any field is read.
    pub fn new() -> (f: Self)
        ensures
            f.view_fields() == empty_form(),
    {
        TransactionForm {
            name: String::new(),
            price_text: None,
            description: String::new(),
            datetime_text: None,
            category: "General".to_string(),
            is_recurring: false,
            recurring_frequency: None,
            receipt_bytes: None,
            receipt_name: None,
        }
    }

    /// Reads one text field of the form.
    pub fn apply_text_field(&mut self, field: &str, value: String)
        ensures
            final(self).view_fields() == with_text_field(old(self).view_fields(), field@, value@),
    {
        if str_eq(field, "name") {
            self.name = value;
        } else if str_eq(field, "price") {
            self.price_text = Some(value);
        } else if str_eq(field, "description") {
            self.description = value;
        } else if str_eq(field, "datetime") {
            self.datetime_text = Some(value);
        } else if str_eq(field, "category") {
            self.category = value;
        } else if str_eq(field, "isRecurring") {
            self.is_recurring = form_bool(value.as_str());
        } else if str_eq(field, "recurringFrequency") {
            self.recurring_frequency = form_frequency(value.as_str());
        }
    }

    /// Reads the receipt field: its bytes and the file name it was sent
    /// under, if any.
    pub fn apply_receipt(&mut self, file_name: Option<String>, bytes: Vec<u8>)
        ensures
            final(self).view_fields() == (FormView {
                receipt_bytes: Some(bytes@),
                receipt_name: opt_text(file_name),
                ..old(self).view_fields()
            }),
    {
        self.receipt_name = file_name;
        self.receipt_bytes = Some(bytes);
    }
}

/// Changes to a transaction as an edit form gives them; `None` leaves the
/// stored value as it is.
pub struct TransactionPatch {
    pub name: Option<String>,
    pub price_text: Option<String>,
    pub description: Option<String>,
    pub datetime_text: Option<String>,
    pub category: Option<String>,
    pub is_recurring: Option<bool>,
    pub recurring_frequency: Option<RecurringFrequency>,
    pub receipt_bytes: Option<Vec<u8>>,
    pub receipt_name: Option<String>,
}

/// The changes of an edit form, as plain values.
pub struct PatchView {
    pub name: Option<Seq<char>>,
    pub price_text: Option<Seq<char>>,
    pub description: Option<Seq<char>>,
    pub datetime_text: Option<Seq<char>>,
    pub category: Option<Seq<char>>,
    pub is_recurring: Option<bool>,
    pub recurring_frequency: Option<RecurringFrequency>,
    pub receipt_bytes: Option<Seq<u8>>,
    pub receipt_name: Option<Seq<char>>,
}

impl TransactionPatch {
    pub open spec fn view_fields(&self) -> PatchView {
        PatchView {
            name: opt_text(self.name),
            price_text: opt_text(self.price_text),
            description: opt_text(self.description),
            datetime_text: opt_text(self.datetime_text),
            category: opt_text(self.category),
            is_recurring: self.is_recurring,
            recurring_frequency: self.recurring_frequency,
            receipt_bytes: opt_bytes(self.receipt_bytes),
            receipt_name: opt_text(self.receipt_name),
        }
    }
}

pub open spec fn empty_patch() -> PatchView {
    PatchView {
        name: None,
        price_text: None,
        description: None,
        datetime_text: None,
        category: None,
        is_recurring: None,
        recurring_frequency: None,
        receipt_bytes: None,
        receipt_name: None,
    }
}

/// What one text field of an edit form does: an empty value changes
/// nothing; a known field sets its change (a recurrence that names no
/// frequency clears the change); other fields change nothing.
pub open spec fn with_patch_field(p: PatchView, field: Seq<char>, value: Seq<char>) -> PatchView {
    if value.len() == 0 {
        p
    } else if field == "name"@ {
        PatchView { name: Some(value), ..p }
    } else if field == "price"@ {
        PatchView { price_text: Some(value), ..p }
    } else if field == "description"@ {
        PatchView { description: Some(value), ..p }
    } else if field == "datetime"@ {
        PatchView { datetime_text: Some(value), ..p }
    } else if field == "category"@ {
        PatchView { category: Some(value), ..p }
    } else if field == "isRecurring"@ {
        PatchView { is_recurring: Some(value == "true"@), ..p }
    } else if field == "recurringFrequency"@ {
        PatchView { recurring_frequency: frequency_named(value), ..p }
    } else {
        p
    }
}

impl TransactionPatch {
    /// An edit form before any field is read: no changes.
    pub fn new() -> (p: Self)
        ensures
            p.view_fields() == empty_patch(),
    {
        TransactionPatch {
            name: None,
            price_text: None,
            description: None,
            datetime_text: None,
            category: None,
            is_recurring: None,
            recurring_frequency: None,
            receipt_bytes: None,
            receipt_name: None,
        }
    }

    /// Reads one text field of the edit form.
    pub fn apply_text_field(&mut self, field: &str, value: String)
        ensures
            final(self).view_fields() == with_patch_field(old(self).view_fields(), field@, value@),
    {
        if chars_of(value.as_str()).len() == 0 {
            return;
        }
        if str_eq(field, "name") {
            self.name = Some(value);
        } else if str_eq(field, "price") {
            self.price_text = Some(value);
        } else if str_eq(field, "description") {
            self.description = Some(value);
        } else if str_eq(field, "datetime") {
            self.datetime_text = Some(value);
        } else if str_eq(field, "category") {
            self.category = Some(value);
        } else if str_eq(field, "isRecurring") {
            self.is_recurring = Some(form_bool(value.as_str()));
        } else if str_eq(field, "recurringFrequency") {
            self.recurring_frequency = form_frequency(value.as_str());
        }
    }

    /// Reads the receipt field of the edit form.
    pub fn apply_receipt(&mut self, file_name: Option<String>, bytes: Vec<u8>)
        ensures
            final(self).view_fields() == (PatchView {
                receipt_bytes: Some(bytes@),
                receipt_name: opt_text(file_name),
                ..old(self).view_fields()
            }),
    {
        self.receipt_name = file_name;
        self.receipt_bytes = Some(bytes);
    }
}

/// The file name a receipt is stored under: the upload time in
/// milliseconds, an underscore, the name it was sent under.
pub open spec fn receipt_file(millis: i64, name: Seq<char>) -> Seq<char> {
    signed_decimal(millis as int) + "_"@ + name
}

/// The stored name of a receipt sent under `name` at `millis`.
pub fn receipt_file_name(millis: i64, name: &str) -> (r: String)
    ensures
        r@ == receipt_file(millis, name@),
{
    let digits = i64_to_decimal(millis);
    let mut r = string_from_chars(digits.as_slice());
    r.append("_");
    r.append(name);
    r
}

/// The address at which a stored receipt is served.
pub fn receipt_url(file_name: &str) -> (r: String)
    ensures
        r@ == "/uploads/"@ + file_name@,
{
    let mut r = String::new();
    r.append("/uploads/");
    r.append(file_name);
    r
}

/// The file behind a receipt's address, relative to the working directory:
/// the address with a `.` in front.
pub fn receipt_path_of_url(url: &str) -> (r: String)
    ensures
        r@ == "."@ + url@,
{
    let mut r = String::new();
    r.append(".");
    r.append(url);
    r
}

} // verus!
