//! The financial tools the language model may call: their names, their
//! argument schemas, and the validation of a call's arguments before it runs.
use vstd::prelude::*;
use crate::errors::AppError;
use crate::text::{chars_of, join, join_with, parse_i64, parse_int_spec, push_all, push_str, string_from_chars};

verus! {

/// Runs the tools the model asks for (see `prepare_tool_call` and
/// `execution_failure_report`).
pub struct Planner;

/// Outcome category of a failed tool call.
#[derive(Debug, Clone, Copy, PartialEq, Eq, Structural)]
pub enum DiagnosticStatus {
    UnknownTool,
    MissingArguments,
    TypeMismatch,
    DomainConstraintViolation,
    ExecutionFailed,
}

/// The registered tools.
#[derive(Debug, Clone, Copy, PartialEq, Eq, Structural)]
pub enum ToolName {
    CalculateEmi,
    AssessLoan,
    EmergencyFund,
    SavingsProjection,
    CalculateTax,
    InvestmentPlan,
    CashflowPlan,
    GenerateBudget,
    ProfileSimilarity,
    StatAnalysis,
}

/// The wire name of each tool.
pub open spec fn tool_name_text(t: ToolName) -> Seq<char> {
    match t {
        ToolName::CalculateEmi => "calculate_emi"@,
        ToolName::AssessLoan => "assess_loan"@,
        ToolName::EmergencyFund => "emergency_fund"@,
        ToolName::SavingsProjection => "savings_projection"@,
        ToolName::CalculateTax => "calculate_tax"@,
        ToolName::InvestmentPlan => "generate_investment_plan"@,
        ToolName::CashflowPlan => "generate_cashflow"@,
        ToolName::GenerateBudget => "generate_budget"@,
        ToolName::ProfileSimilarity => "profile_similarity"@,
        ToolName::StatAnalysis => "stat_analysis"@,
    }
}

/// The tools in registry order.
pub open spec fn all_tools() -> Seq<ToolName> {
    seq![
        ToolName::CalculateEmi,
        ToolName::AssessLoan,
        ToolName::EmergencyFund,
        ToolName::SavingsProjection,
        ToolName::CalculateTax,
        ToolName::InvestmentPlan,
        ToolName::CashflowPlan,
        ToolName::GenerateBudget,
        ToolName::ProfileSimilarity,
        ToolName::StatAnalysis,
    ]
}

/// Whether two texts are equal, character by character.
pub fn text_eq(a: &Vec<char>, b: &Vec<char>) -> (r: bool)
    ensures
        r == (a@ == b@),
{
    if a.len() != b.len() {
        return false;
    }
    let mut i: usize = 0;
    while i < a.len()
        invariant
            i <= a.len(),
            a.len() == b.len(),
            forall|k: int| 0 <= k < i ==> a@[k] == b@[k],
        decreases a.len() - i,
    {
        if a[i] != b[i] {
            return false;
        }
        i = i + 1;
    }
    assert(a@ =~= b@);
    true
}

/// Whether two string slices are equal.
pub fn str_eq(a: &str, b: &str) -> (r: bool)
    ensures
        r == (a@ == b@),
{
    text_eq(&chars_of(a), &chars_of(b))
}

impl ToolName {
    /// The wire name of the tool.
    pub fn as_str(&self) -> (s: &'static str)
        ensures
            s@ == tool_name_text(*self),
    {
        match self {
            ToolName::CalculateEmi => "calculate_emi",
            ToolName::AssessLoan => "assess_loan",
            ToolName::EmergencyFund => "emergency_fund",
            ToolName::SavingsProjection => "savings_projection",
            ToolName::CalculateTax => "calculate_tax",
            ToolName::InvestmentPlan => "generate_investment_plan",
            ToolName::CashflowPlan => "generate_cashflow",
            ToolName::GenerateBudget => "generate_budget",
            ToolName::ProfileSimilarity => "profile_similarity",
            ToolName::StatAnalysis => "stat_analysis",
        }
    }

    /// The tool at a registry position.
    fn at(k: usize) -> (t: ToolName)
        requires
            k < 10,
        ensures
            t == all_tools()[k as int],
    {
        if k == 0 {
            ToolName::CalculateEmi
        } else if k == 1 {
            ToolName::AssessLoan
        } else if k == 2 {
            ToolName::EmergencyFund
        } else if k == 3 {
            ToolName::SavingsProjection
        } else if k == 4 {
            ToolName::CalculateTax
        } else if k == 5 {
            ToolName::InvestmentPlan
        } else if k == 6 {
            ToolName::CashflowPlan
        } else if k == 7 {
            ToolName::GenerateBudget
        } else if k == 8 {
            ToolName::ProfileSimilarity
        } else {
            ToolName::StatAnalysis
        }
    }

    /// The names of all tools, in registry order.
    pub fn all_names() -> (v: Vec<String>)
        ensures
            v@.len() == 10,
            forall|k: int| 0 <= k < 10 ==> #[trigger] v@[k]@ == tool_name_text(all_tools()[k]),
    {
        let mut v: Vec<String> = Vec::new();
        let mut k: usize = 0;
        while k < 10
            invariant
                k <= 10,
                v@.len() == k,
                forall|q: int| 0 <= q < k ==> #[trigger] v@[q]@ == tool_name_text(all_tools()[q]),
            decreases 10 - k,
        {
            let t = ToolName::at(k);
            v.push(t.as_str().to_string());
            k = k + 1;
        }
        v
    }

    /// The tool with a given wire name; any other name is refused with
    /// `Unknown tool: <name>`.
    pub fn from_str(s: &str) -> (r: Result<ToolName, AppError>)
        ensures
            r matches Ok(t) ==> s@ == tool_name_text(t),
            r is Err <==> forall|k: int| 0 <= k < 10 ==> s@ != tool_name_text(#[trigger] all_tools()[k]),
            r matches Err(e) ==> (e matches AppError::InvalidInput(m) && m@ == "Unknown tool: "@ + s@),
    {
        let v = chars_of(s);
        let mut k: usize = 0;
        while k < 10
            invariant
                k <= 10,
                v@ == s@,
                forall|q: int| 0 <= q < k ==> s@ != tool_name_text(#[trigger] all_tools()[q]),
            decreases 10 - k,
        {
            let t = ToolName::at(k);
            if text_eq(&v, &chars_of(t.as_str())) {
                return Ok(t);
            }
            k = k + 1;
        }
        let mut m = String::new();
        m.append("Unknown tool: ");
        m.append(s);
        Err(AppError::InvalidInput(m))
    }
}


/// The JSON type a tool parameter expects.
#[derive(Debug, Clone, Copy, PartialEq, Eq, Structural)]
pub enum ParamType {
    Number,
    Integer,
    Str,
    Boolean,
    Object,
    Array,
}

pub open spec fn param_type_text(t: ParamType) -> Seq<char> {
    match t {
        ParamType::Number => "number"@,
        ParamType::Integer => "integer"@,
        ParamType::Str => "string"@,
        ParamType::Boolean => "boolean"@,
        ParamType::Object => "object"@,
        ParamType::Array => "array"@,
    }
}

impl ParamType {
    /// The JSON-schema name of the type.
    pub fn schema_name(&self) -> (s: &'static str)
        ensures
            s@ == param_type_text(*self),
    {
        match self {
            ParamType::Number => "number",
            ParamType::Integer => "integer",
            ParamType::Str => "string",
            ParamType::Boolean => "boolean",
            ParamType::Object => "object",
            ParamType::Array => "array",
        }
    }
}

/// One property of a tool's argument object.
pub struct FieldSchema {
    pub name: String,
    pub kind: ParamType,
    pub description: Option<String>,
    pub enum_values: Option<Vec<String>>,
}

/// The properties of an object-valued parameter.
pub struct NestedSchema {
    pub properties: Vec<FieldSchema>,
    pub required: Vec<String>,
}

/// A top-level parameter of a tool.
pub struct ParamSchema {
    pub field: FieldSchema,
    pub nested: Option<NestedSchema>,
}

/// The function-calling schema of one tool.
pub struct ToolSchema {
    pub name: String,
    pub description: String,
    pub params: Vec<ParamSchema>,
    pub required: Vec<String>,
}

/// What validation reads of a parameter: name, type and allowed values.
pub struct ParamView {
    pub name: Seq<char>,
    pub kind: ParamType,
    pub enum_values: Option<Seq<Seq<char>>>,
}

pub open spec fn strings_view(v: Seq<String>) -> Seq<Seq<char>> {
    v.map_values(|s: String| s@)
}

impl FieldSchema {
    pub open spec fn param_view(&self) -> ParamView {
        ParamView {
            name: self.name@,
            kind: self.kind,
            enum_values: match self.enum_values {
                Some(v) => Some(strings_view(v@)),
                None => None,
            },
        }
    }
}

impl ToolSchema {
    /// The parameters as validation reads them.
    pub open spec fn params_view(&self) -> Seq<ParamView> {
        params_views(self.params@)
    }
}

pub open spec fn params_views(params: Seq<ParamSchema>) -> Seq<ParamView> {
    params.map_values(|p: ParamSchema| p.field.param_view())
}

pub open spec fn pv(name: Seq<char>, kind: ParamType, e: Option<Seq<Seq<char>>>) -> ParamView {
    ParamView { name, kind, enum_values: e }
}

pub open spec fn profile_variants() -> Seq<Seq<char>> {
    seq![
        "young_professional"@,
        "family_with_dependents"@,
        "retiree_income_focused"@,
        "single_parent"@,
    ]
}

/// The parameters of each tool (`variants` are the loan policy names).
pub open spec fn tool_params(t: ToolName, variants: Seq<Seq<char>>) -> Seq<ParamView> {
    match t {
        ToolName::CalculateEmi => seq![
            pv("principal"@, ParamType::Number, None),
            pv("annual_rate"@, ParamType::Number, None),
            pv("tenure_months"@, ParamType::Integer, None),
        ],
        ToolName::AssessLoan => seq![
            pv("request"@, ParamType::Object, None),
            pv("policy"@, ParamType::Str, Some(variants)),
        ],
        ToolName::EmergencyFund => seq![
            pv("monthly_expense"@, ParamType::Number, None),
            pv("policy"@, ParamType::Str, Some(variants)),
        ],
        ToolName::SavingsProjection => seq![
            pv("months"@, ParamType::Integer, None),
            pv("policy"@, ParamType::Str, Some(variants)),
        ],
        ToolName::CalculateTax => seq![
            pv("amount"@, ParamType::Number, None),
            pv("profile"@, ParamType::Str, None),
        ],
        ToolName::InvestmentPlan => seq![
            pv("investable_amount"@, ParamType::Number, None),
            pv("profile"@, ParamType::Str, Some(profile_variants())),
            pv("loan_policy"@, ParamType::Str, Some(variants)),
        ],
        ToolName::CashflowPlan => seq![
            pv("monthly_income"@, ParamType::Number, None),
            pv("profile"@, ParamType::Str, Some(profile_variants())),
            pv("loan_policy"@, ParamType::Str, Some(variants)),
        ],
        ToolName::GenerateBudget => seq![
            pv("monthly_income"@, ParamType::Number, None),
            pv("profile"@, ParamType::Str, Some(profile_variants())),
            pv("loan_policy"@, ParamType::Str, Some(variants)),
        ],
        ToolName::ProfileSimilarity => seq![
            pv("a"@, ParamType::Object, None),
            pv("b"@, ParamType::Object, None),
            pv("metric"@, ParamType::Str, Some(seq!["Euclidean"@, "Cosine"@, "Pearson"@])),
        ],
        ToolName::StatAnalysis => seq![
            pv("profile"@, ParamType::Str, Some(profile_variants())),
            pv("loan_policy"@, ParamType::Str, Some(variants)),
            pv("tax_profile"@, ParamType::Str, None),
        ],
    }
}

/// The required parameters of each tool.
pub open spec fn tool_required(t: ToolName) -> Seq<Seq<char>> {
    match t {
        ToolName::CalculateEmi => seq!["principal"@, "annual_rate"@, "tenure_months"@],
        ToolName::AssessLoan => seq!["request"@, "policy"@],
        ToolName::EmergencyFund => seq!["monthly_expense"@],
        ToolName::SavingsProjection => seq!["months"@, "policy"@],
        ToolName::CalculateTax => seq!["amount"@, "profile"@],
        ToolName::InvestmentPlan => seq!["investable_amount"@, "profile"@],
        ToolName::CashflowPlan => seq!["monthly_income"@, "profile"@],
        ToolName::GenerateBudget => seq!["monthly_income"@, "profile"@],
        ToolName::ProfileSimilarity => seq!["a"@, "b"@, "metric"@],
        ToolName::StatAnalysis => seq!["profile"@],
    }
}

/// A property of a tool's argument object, as plain values.
pub struct FieldView {
    pub name: Seq<char>,
    pub kind: ParamType,
    pub description: Option<Seq<char>>,
    pub enum_values: Option<Seq<Seq<char>>>,
}

/// The properties of an object-valued parameter, as plain values.
pub struct NestedView {
    pub properties: Seq<FieldView>,
    pub required: Seq<Seq<char>>,
}

/// A top-level parameter, as plain values.
pub struct ParamSchemaView {
    pub field: FieldView,
    pub nested: Option<NestedView>,
}

/// A tool's whole schema, as plain values.
pub struct ToolSchemaView {
    pub name: Seq<char>,
    pub description: Seq<char>,
    pub params: Seq<ParamSchemaView>,
    pub required: Seq<Seq<char>>,
}

pub open spec fn opt_text_view(o: Option<String>) -> Option<Seq<char>> {
    match o {
        Some(s) => Some(s@),
        None => None,
    }
}

impl FieldSchema {
    pub open spec fn full_view(&self) -> FieldView {
        FieldView {
            name: self.name@,
            kind: self.kind,
            description: opt_text_view(self.description),
            enum_values: match self.enum_values {
                Some(v) => Some(strings_view(v@)),
                None => None,
            },
        }
    }
}

impl NestedSchema {
    pub open spec fn full_view(&self) -> NestedView {
        NestedView {
            properties: self.properties@.map_values(|f: FieldSchema| f.full_view()),
            required: strings_view(self.required@),
        }
    }
}

impl ParamSchema {
    pub open spec fn full_view(&self) -> ParamSchemaView {
        ParamSchemaView {
            field: self.field.full_view(),
            nested: match self.nested {
                Some(n) => Some(n.full_view()),
                None => None,
            },
        }
    }
}

impl ToolSchema {
    pub open spec fn full_view(&self) -> ToolSchemaView {
        ToolSchemaView {
            name: self.name@,
            description: self.description@,
            params: self.params@.map_values(|p: ParamSchema| p.full_view()),
            required: strings_view(self.required@),
        }
    }
}

pub open spec fn fv(name: Seq<char>, kind: ParamType, description: Option<Seq<char>>, e: Option<Seq<Seq<char>>>) -> FieldView {
    FieldView { name, kind, description, enum_values: e }
}

pub open spec fn pp(f: FieldView) -> ParamSchemaView {
    ParamSchemaView { field: f, nested: None }
}

/// The loan request object that `assess_loan` takes.
pub open spec fn loan_request_view() -> NestedView {
    NestedView {
        properties: seq![
            fv("monthly_income"@, ParamType::Number, None, None),
            fv("existing_emi"@, ParamType::Number, None, None),
            fv("requested_emi"@, ParamType::Number, None, None),
            fv("credit_score"@, ParamType::Integer, None, None),
            fv("purpose"@, ParamType::Str, None, Some(seq!["Personal"@, "Home"@, "Education"@, "Auto"@])),
            fv("is_joint"@, ParamType::Boolean, None, None),
        ],
        required: seq!["monthly_income"@, "requested_emi"@, "credit_score"@, "purpose"@],
    }
}

/// The description and parameters of each tool's schema.
pub open spec fn tool_description(t: ToolName) -> Seq<char> {
    match t {
        ToolName::CalculateEmi => "Calculate monthly EMI based on principal, annual interest rate, and tenure in months."@,
        ToolName::AssessLoan => "Assess loan eligibility based on loan request and policy."@,
        ToolName::EmergencyFund => "Calculate recommended emergency fund based on monthly expense and policy."@,
        ToolName::SavingsProjection => "Project savings growth over a number of months."@,
        ToolName::CalculateTax => "Calculate taxes based on amount and tax profile rules."@,
        ToolName::InvestmentPlan => "Generate an investment allocation plan based on investable amount and investor profile."@,
        ToolName::CashflowPlan => "Generate a monthly cashflow allocation based on income and cashflow profile."@,
        ToolName::GenerateBudget => "Generate a monthly budget allocation based on income and budget profile rules."@,
        ToolName::ProfileSimilarity => "Compute similarity score between two user profiles using a selected metric."@,
        ToolName::StatAnalysis => "Analyze user stats to compute category scores and generate health/finance/productivity alerts."@,
    }
}

pub open spec fn tool_param_schemas(t: ToolName, variants: Seq<Seq<char>>) -> Seq<ParamSchemaView> {
    match t {
        ToolName::CalculateEmi => seq![
            pp(fv("principal"@, ParamType::Number, Some("Total loan principal amount"@), None)),
            pp(fv("annual_rate"@, ParamType::Number, Some("Annual interest rate percentage (e.g. 8.5)"@), None)),
            pp(fv("tenure_months"@, ParamType::Integer, Some("Tenure in months"@), None)),
        ],
        ToolName::AssessLoan => seq![
            ParamSchemaView { field: fv("request"@, ParamType::Object, None, None), nested: Some(loan_request_view()) },
            pp(fv("policy"@, ParamType::Str, Some("Select a loan policy variant"@), Some(variants))),
        ],
        ToolName::EmergencyFund => seq![
            pp(fv("monthly_expense"@, ParamType::Number, None, None)),
            pp(fv("policy"@, ParamType::Str, Some("Loan policy variant affecting emergency fund calculations"@), Some(variants))),
        ],
        ToolName::SavingsProjection => seq![
            pp(fv("months"@, ParamType::Integer, None, None)),
            pp(fv("policy"@, ParamType::Str, None, Some(variants))),
        ],
        ToolName::CalculateTax => seq![
            pp(fv("amount"@, ParamType::Number, None, None)),
            pp(fv("profile"@, ParamType::Str, Some("Tax profile name or variant"@), None)),
        ],
        ToolName::InvestmentPlan => seq![
            pp(fv("investable_amount"@, ParamType::Number, None, None)),
            pp(fv("profile"@, ParamType::Str, Some("StatProfile variant name"@), Some(profile_variants()))),
            pp(fv("loan_policy"@, ParamType::Str, Some("Optional loan policy variant"@), Some(variants))),
        ],
        ToolName::CashflowPlan => seq![
            pp(fv("monthly_income"@, ParamType::Number, None, None)),
            pp(fv("profile"@, ParamType::Str, Some("StatProfile variant"@), Some(profile_variants()))),
            pp(fv("loan_policy"@, ParamType::Str, None, Some(variants))),
        ],
        ToolName::GenerateBudget => seq![
            pp(fv("monthly_income"@, ParamType::Number, None, None)),
            pp(fv("profile"@, ParamType::Str, None, Some(profile_variants()))),
            pp(fv("loan_policy"@, ParamType::Str, None, Some(variants))),
        ],
        ToolName::ProfileSimilarity => seq![
            pp(fv("a"@, ParamType::Object, None, None)),
            pp(fv("b"@, ParamType::Object, None, None)),
            pp(fv("metric"@, ParamType::Str, None, Some(seq!["Euclidean"@, "Cosine"@, "Pearson"@]))),
        ],
        ToolName::StatAnalysis => seq![
            pp(fv("profile"@, ParamType::Str, Some("StatProfile variant name"@), Some(profile_variants()))),
            pp(fv("loan_policy"@, ParamType::Str, None, Some(variants))),
            pp(fv("tax_profile"@, ParamType::Str, Some("Optional tax profile name"@), None)),
        ],
    }
}

/// The registry's whole schema of tool `t` (`variants` are the loan policy
/// names).
pub open spec fn tool_schema_view(t: ToolName, variants: Seq<Seq<char>>) -> ToolSchemaView {
    ToolSchemaView {
        name: tool_name_text(t),
        description: tool_description(t),
        params: tool_param_schemas(t, variants),
        required: tool_required(t),
    }
}

/// A schema is the registry's schema for tool `t`: the whole value is
/// `tool_schema_view(t, variants)`; in particular its name, its parameters
/// as validation reads them, and its required fields.
pub open spec fn schema_is(s: ToolSchema, t: ToolName, variants: Seq<Seq<char>>) -> bool {
    &&& s.full_view() == tool_schema_view(t, variants)
    &&& s.name@ == tool_name_text(t)
    &&& s.params_view() == tool_params(t, variants)
    &&& strings_view(s.required@) == tool_required(t)
}

fn strs(items: &[&str]) -> (v: Vec<String>)
    ensures
        v@.len() == items@.len(),
        forall|k: int| 0 <= k < items@.len() ==> #[trigger] v@[k]@ == items@[k]@,
{
    let mut v: Vec<String> = Vec::new();
    let mut k: usize = 0;
    while k < items.len()
        invariant
            k <= items@.len(),
            v@.len() == k,
            forall|q: int| 0 <= q < k ==> #[trigger] v@[q]@ == items@[q]@,
        decreases items@.len() - k,
    {
        v.push(items[k].to_string());
        k = k + 1;
    }
    v
}

fn copy_strings(items: &Vec<String>) -> (v: Vec<String>)
    ensures
        strings_view(v@) == strings_view(items@),
{
    let mut v: Vec<String> = Vec::new();
    let mut k: usize = 0;
    while k < items.len()
        invariant
            k <= items@.len(),
            v@.len() == k,
            forall|q: int| 0 <= q < k ==> #[trigger] v@[q]@ == items@[q]@,
        decreases items@.len() - k,
    {
        v.push(items[k].clone());
        k = k + 1;
    }
    assert(strings_view(v@) =~= strings_view(items@));
    v
}

fn field(name: &str, kind: ParamType, description: Option<&str>, enum_values: Option<Vec<String>>) -> (f: FieldSchema)
    ensures
        f.name@ == name@,
        f.kind == kind,
        f.enum_values == enum_values,
        opt_text_view(f.description) == match description {
            Some(d) => Some(d@),
            None => None::<Seq<char>>,
        },
{
    FieldSchema {
        name: name.to_string(),
        kind,
        description: match description {
            Some(d) => Some(d.to_string()),
            None => None,
        },
        enum_values,
    }
}

fn param(f: FieldSchema) -> (p: ParamSchema)
    ensures
        p.field == f,
        p.nested is None,
{
    ParamSchema { field: f, nested: None }
}

fn profile_enum() -> (v: Vec<String>)
    ensures
        strings_view(v@) == profile_variants(),
{
    let v = strs(&["young_professional", "family_with_dependents", "retiree_income_focused", "single_parent"]);
    assert(strings_view(v@) =~= profile_variants());
    v
}

fn loan_enum(variants: &Vec<String>) -> (v: Vec<String>)
    ensures
        strings_view(v@) == strings_view(variants@),
{
    copy_strings(variants)
}

/// Builds the schema of one tool.
pub fn tool_schema(t: ToolName, loan_policy_variants: &Vec<String>) -> (s: ToolSchema)
    ensures
        schema_is(s, t, strings_view(loan_policy_variants@)),
{
    let ghost lv = strings_view(loan_policy_variants@);
    match t {
        ToolName::CalculateEmi => finish(t, loan_policy_variants,
            "Calculate monthly EMI based on principal, annual interest rate, and tenure in months.",
            vec![
                param(field("principal", ParamType::Number, Some("Total loan principal amount"), None)),
                param(field("annual_rate", ParamType::Number, Some("Annual interest rate percentage (e.g. 8.5)"), None)),
                param(field("tenure_months", ParamType::Integer, Some("Tenure in months"), None)),
            ],
            strs(&["principal", "annual_rate", "tenure_months"]),
        ),
        ToolName::AssessLoan => {
            let purpose = strs(&["Personal", "Home", "Education", "Auto"]);
            let nested = NestedSchema {
                properties: vec![
                    field("monthly_income", ParamType::Number, None, None),
                    field("existing_emi", ParamType::Number, None, None),
                    field("requested_emi", ParamType::Number, None, None),
                    field("credit_score", ParamType::Integer, None, None),
                    field("purpose", ParamType::Str, None, Some(purpose)),
                    field("is_joint", ParamType::Boolean, None, None),
                ],
                required: strs(&["monthly_income", "requested_emi", "credit_score", "purpose"]),
            };
            assert(strings_view(nested.properties@[4].enum_values.unwrap()@) =~= seq!["Personal"@, "Home"@, "Education"@, "Auto"@]);
            assert(nested.properties@.map_values(|f: FieldSchema| f.full_view()) =~= loan_request_view().properties);
            assert(strings_view(nested.required@) =~= loan_request_view().required);
            assert(nested.full_view() == loan_request_view());
            finish(t, loan_policy_variants,
                "Assess loan eligibility based on loan request and policy.",
                vec![
                    ParamSchema { field: field("request", ParamType::Object, None, None), nested: Some(nested) },
                    param(field("policy", ParamType::Str, Some("Select a loan policy variant"), Some(loan_enum(loan_policy_variants)))),
                ],
                strs(&["request", "policy"]),
            )
        },
        ToolName::EmergencyFund => finish(t, loan_policy_variants,
            "Calculate recommended emergency fund based on monthly expense and policy.",
            vec![
                param(field("monthly_expense", ParamType::Number, None, None)),
                param(field("policy", ParamType::Str, Some("Loan policy variant affecting emergency fund calculations"), Some(loan_enum(loan_policy_variants)))),
            ],
            strs(&["monthly_expense"]),
        ),
        ToolName::SavingsProjection => finish(t, loan_policy_variants,
            "Project savings growth over a number of months.",
            vec![
                param(field("months", ParamType::Integer, None, None)),
                param(field("policy", ParamType::Str, None, Some(loan_enum(loan_policy_variants)))),
            ],
            strs(&["months", "policy"]),
        ),
        ToolName::CalculateTax => finish(t, loan_policy_variants,
            "Calculate taxes based on amount and tax profile rules.",
            vec![
                param(field("amount", ParamType::Number, None, None)),
                param(field("profile", ParamType::Str, Some("Tax profile name or variant"), None)),
            ],
            strs(&["amount", "profile"]),
        ),
        ToolName::InvestmentPlan => finish(t, loan_policy_variants,
            "Generate an investment allocation plan based on investable amount and investor profile.",
            vec![
                param(field("investable_amount", ParamType::Number, None, None)),
                param(field("profile", ParamType::Str, Some("StatProfile variant name"), Some(profile_enum()))),
                param(field("loan_policy", ParamType::Str, Some("Optional loan policy variant"), Some(loan_enum(loan_policy_variants)))),
            ],
            strs(&["investable_amount", "profile"]),
        ),
        ToolName::CashflowPlan => finish(t, loan_policy_variants,
            "Generate a monthly cashflow allocation based on income and cashflow profile.",
            vec![
                param(field("monthly_income", ParamType::Number, None, None)),
                param(field("profile", ParamType::Str, Some("StatProfile variant"), Some(profile_enum()))),
                param(field("loan_policy", ParamType::Str, None, Some(loan_enum(loan_policy_variants)))),
            ],
            strs(&["monthly_income", "profile"]),
        ),
        ToolName::GenerateBudget => finish(t, loan_policy_variants,
            "Generate a monthly budget allocation based on income and budget profile rules.",
            vec![
                param(field("monthly_income", ParamType::Number, None, None)),
                param(field("profile", ParamType::Str, None, Some(profile_enum()))),
                param(field("loan_policy", ParamType::Str, None, Some(loan_enum(loan_policy_variants)))),
            ],
            strs(&["monthly_income", "profile"]),
        ),
        ToolName::ProfileSimilarity => {
            let metrics = strs(&["Euclidean", "Cosine", "Pearson"]);
            assert(strings_view(metrics@) =~= seq!["Euclidean"@, "Cosine"@, "Pearson"@]);
            finish(t, loan_policy_variants,
                "Compute similarity score between two user profiles using a selected metric.",
                vec![
                    param(field("a", ParamType::Object, None, None)),
                    param(field("b", ParamType::Object, None, None)),
                    param(field("metric", ParamType::Str, None, Some(metrics))),
                ],
                strs(&["a", "b", "metric"]),
            )
        },
        ToolName::StatAnalysis => finish(t, loan_policy_variants,
            "Analyze user stats to compute category scores and generate health/finance/productivity alerts.",
            vec![
                param(field("profile", ParamType::Str, Some("StatProfile variant name"), Some(profile_enum()))),
                param(field("loan_policy", ParamType::Str, None, Some(loan_enum(loan_policy_variants)))),
                param(field("tax_profile", ParamType::Str, Some("Optional tax profile name"), None)),
            ],
            strs(&["profile"]),
        ),
    }
}

/// Assembles a tool schema from its parts.
fn finish(t: ToolName, loan_policy_variants: &Vec<String>, description: &str, params: Vec<ParamSchema>, required: Vec<String>) -> (s: ToolSchema)
    requires
        description@ == tool_description(t),
        params@.len() == tool_params(t, strings_view(loan_policy_variants@)).len(),
        params@.len() == tool_param_schemas(t, strings_view(loan_policy_variants@)).len(),
        forall|k: int|
            0 <= k < params@.len() ==> #[trigger] params@[k].field.param_view() == tool_params(
                t,
                strings_view(loan_policy_variants@),
            )[k] && params@[k].full_view() == tool_param_schemas(t, strings_view(loan_policy_variants@))[k],
        required@.len() == tool_required(t).len(),
        forall|k: int| 0 <= k < required@.len() ==> #[trigger] required@[k]@ == tool_required(t)[k],
    ensures
        schema_is(s, t, strings_view(loan_policy_variants@)),
{
    let s = ToolSchema { name: t.as_str().to_string(), description: description.to_string(), params, required };
    assert(s.params_view() =~= tool_params(t, strings_view(loan_policy_variants@)));
    assert(strings_view(s.required@) =~= tool_required(t));
    assert(s.params@.map_values(|p: ParamSchema| p.full_view()) =~= tool_param_schemas(t, strings_view(loan_policy_variants@)));
    assert(s.full_view() =~= tool_schema_view(t, strings_view(loan_policy_variants@)));
    s
}

/// The schemas of all tools, in registry order.
pub fn tool_definitions(loan_policy_variants: &Vec<String>) -> (v: Vec<ToolSchema>)
    ensures
        v@.len() == 10,
        forall|k: int| 0 <= k < 10 ==> schema_is(#[trigger] v@[k], all_tools()[k], strings_view(loan_policy_variants@)),
{
    let mut v: Vec<ToolSchema> = Vec::new();
    let mut k: usize = 0;
    while k < 10
        invariant
            k <= 10,
            v@.len() == k,
            forall|q: int| 0 <= q < k ==> schema_is(#[trigger] v@[q], all_tools()[q], strings_view(loan_policy_variants@)),
        decreases 10 - k,
    {
        v.push(tool_schema(ToolName::at(k), loan_policy_variants));
        k = k + 1;
    }
    v
}

/// The schema of the tool with a given wire name, if it is registered.
pub fn get_tool_schema(tool_name: &str, loan_policy_variants: &Vec<String>) -> (r: Option<ToolSchema>)
    ensures
        r matches Some(s) ==> exists|k: int| 0 <= k < 10 && tool_name@ == tool_name_text(#[trigger] all_tools()[k]) && schema_is(s, all_tools()[k], strings_view(loan_policy_variants@)),
        r is None <==> forall|k: int| 0 <= k < 10 ==> tool_name@ != tool_name_text(#[trigger] all_tools()[k]),
{
    match ToolName::from_str(tool_name) {
        Ok(t) => {
            let ghost k = choose|k: int| 0 <= k < 10 && all_tools()[k] == t;
            assert(all_tools()[tool_index(t)] == t);
            Some(tool_schema(t, loan_policy_variants))
        },
        Err(_) => None,
    }
}

pub open spec fn tool_index(t: ToolName) -> int {
    match t {
        ToolName::CalculateEmi => 0,
        ToolName::AssessLoan => 1,
        ToolName::EmergencyFund => 2,
        ToolName::SavingsProjection => 3,
        ToolName::CalculateTax => 4,
        ToolName::InvestmentPlan => 5,
        ToolName::CashflowPlan => 6,
        ToolName::GenerateBudget => 7,
        ToolName::ProfileSimilarity => 8,
        ToolName::StatAnalysis => 9,
    }
}


/// The registry position a wire name determines, read off its length and
/// a few of its characters.
spec fn name_position(s: Seq<char>) -> int {
    if s.len() == 11 {
        1
    } else if s.len() == 14 {
        2
    } else if s.len() == 24 {
        5
    } else if s.len() == 17 {
        6
    } else if s.len() == 15 {
        7
    } else if s.len() == 18 {
        if s[0] == 's' { 3 } else { 8 }
    } else if s[0] == 's' {
        9
    } else if s[10] == 'e' {
        0
    } else {
        4
    }
}

proof fn lemma_name_position(t: ToolName)
    ensures
        name_position(tool_name_text(t)) == tool_index(t),
{
    match t {
        ToolName::CalculateEmi => reveal_strlit("calculate_emi"),
        ToolName::AssessLoan => reveal_strlit("assess_loan"),
        ToolName::EmergencyFund => reveal_strlit("emergency_fund"),
        ToolName::SavingsProjection => reveal_strlit("savings_projection"),
        ToolName::CalculateTax => reveal_strlit("calculate_tax"),
        ToolName::InvestmentPlan => reveal_strlit("generate_investment_plan"),
        ToolName::CashflowPlan => reveal_strlit("generate_cashflow"),
        ToolName::GenerateBudget => reveal_strlit("generate_budget"),
        ToolName::ProfileSimilarity => reveal_strlit("profile_similarity"),
        ToolName::StatAnalysis => reveal_strlit("stat_analysis"),
    }
}

/// Distinct tools have distinct wire names.
pub proof fn lemma_tool_names_distinct(a: ToolName, b: ToolName)
    requires
        tool_name_text(a) == tool_name_text(b),
    ensures
        a == b,
{
    lemma_name_position(a);
    lemma_name_position(b);
    assert(all_tools()[tool_index(a)] == a);
    assert(all_tools()[tool_index(b)] == b);
}

/// Reading a tool's wire name gives the tool back.
pub proof fn law_tool_name_round_trip(t: ToolName)
    ensures
        exists|k: int| 0 <= k < 10 && #[trigger] all_tools()[k] == t,
        forall|k: int| 0 <= k < 10 && tool_name_text(t) == tool_name_text(#[trigger] all_tools()[k]) ==> all_tools()[k] == t,
{
    assert(all_tools()[tool_index(t)] == t);
    assert forall|k: int| 0 <= k < 10 && tool_name_text(t) == tool_name_text(#[trigger] all_tools()[k]) implies all_tools()[k] == t by {
        lemma_tool_names_distinct(t, all_tools()[k]);
    }
}


/// An argument value of a tool call, as validation sees a JSON value.
/// Numbers that are not integers, arrays and objects carry their compact
/// JSON text; a string carries whether its cleaned text (see
/// `clean_numeric_text`) reads as a floating-point number.
pub enum ArgValue {
    Null,
    Bool(bool),
    Int(i64),
    UInt(u64),
    Float(String),
    Str(String, bool),
    Array(String),
    Object(String),
    /// A number produced from a string argument: the cleaned text to read.
    CoercedNumber(String),
}

impl ArgValue {
    /// A copy of the value.
    pub fn duplicate(&self) -> (r: ArgValue)
        ensures
            r == *self,
    {
        match self {
            ArgValue::Null => ArgValue::Null,
            ArgValue::Bool(b) => ArgValue::Bool(*b),
            ArgValue::Int(i) => ArgValue::Int(*i),
            ArgValue::UInt(u) => ArgValue::UInt(*u),
            ArgValue::Float(t) => ArgValue::Float(t.clone()),
            ArgValue::Str(t, f) => ArgValue::Str(t.clone(), *f),
            ArgValue::Array(t) => ArgValue::Array(t.clone()),
            ArgValue::Object(t) => ArgValue::Object(t.clone()),
            ArgValue::CoercedNumber(t) => ArgValue::CoercedNumber(t.clone()),
        }
    }
}

/// A field of a call that failed validation.
pub struct FieldError {
    pub field: String,
    pub expected_type: String,
    pub actual_value: Option<ArgValue>,
    pub issue: String,
}

/// The schema a diagnostic report shows the model.
pub enum ExpectedSchema {
    /// The tool's argument object: its properties and required fields.
    Parameters { params: Vec<ParamSchema>, required: Vec<String> },
    /// The tool's whole function schema.
    Tool(ToolSchema),
}

/// The schema shown is the argument object of tool `t`, as its registry
/// schema gives it.
pub open spec fn parameters_are(e: ExpectedSchema, t: ToolName, variants: Seq<Seq<char>>) -> bool {
    &&& e matches ExpectedSchema::Parameters { params, required }
    &&& params@.map_values(|p: ParamSchema| p.full_view()) == tool_param_schemas(t, variants)
    &&& strings_view(required@) == tool_required(t)
}

/// Why a tool call was refused, in a form the model can act on.
pub struct ToolDiagnosticReport {
    pub tool_name: String,
    pub status: DiagnosticStatus,
    pub error_summary: String,
    pub missing_fields: Vec<String>,
    pub invalid_fields: Vec<FieldError>,
    pub expected_schema: Option<ExpectedSchema>,
    pub available_tools: Vec<String>,
    pub remediation_prompt: String,
}

/// Currency symbols, thousands separators and spaces removed.
pub open spec fn clean_numeric(s: Seq<char>) -> Seq<char>
    decreases s.len(),
{
    if s.len() == 0 {
        seq![]
    } else {
        let c = s.last();
        let init = clean_numeric(s.drop_last());
        if c == '\u{20b9}' || c == '$' || c == ',' || c == ' ' {
            init
        } else {
            init.push(c)
        }
    }
}

/// Cleaning a numeric string removes exactly the characters `₹`, `$`, `,`
/// and ` `: every other character (digits, the decimal point, a sign, an
/// exponent) is kept, in its order, so the cleaned text reads as the same
/// decimal value. In particular a text free of those four characters comes
/// back unchanged, and none of them is left in any result.
pub proof fn law_clean_numeric_removes_only_currency_and_separators(s: Seq<char>)
    ensures
        clean_numeric(s) == s.filter(|c: char| !(c == '\u{20b9}' || c == '$' || c == ',' || c == ' ')),
        (forall|i: int| 0 <= i < s.len() ==> !(#[trigger] s[i] == '\u{20b9}' || s[i] == '$' || s[i] == ',' || s[i] == ' '))
            ==> clean_numeric(s) == s,
        forall|i: int| 0 <= i < clean_numeric(s).len() ==> {
            let c = #[trigger] clean_numeric(s)[i];
            c != '\u{20b9}' && c != '$' && c != ',' && c != ' '
        },
    decreases s.len(),
{
    let keep = |c: char| !(c == '\u{20b9}' || c == '$' || c == ',' || c == ' ');
    reveal(Seq::filter);
    if s.len() > 0 {
        law_clean_numeric_removes_only_currency_and_separators(s.drop_last());
        assert(s.drop_last().push(s.last()) =~= s);
    }
    assert(clean_numeric(s) == s.filter(keep));
    assert forall|i: int| 0 <= i < s.filter(keep).len() implies keep(#[trigger] s.filter(keep)[i]) by {
        s.lemma_filter_pred(keep, i);
    }
}

/// Removes `₹`, `$`, `,` and spaces, as validation does before reading a
/// string argument as a number.
pub fn clean_numeric_text(s: &str) -> (r: Vec<char>)
    ensures
        r@ == clean_numeric(s@),
        r@ == s@.filter(|c: char| !(c == '\u{20b9}' || c == '$' || c == ',' || c == ' ')),
{
    proof {
        law_clean_numeric_removes_only_currency_and_separators(s@);
    }
    let v = chars_of(s);
    let mut r: Vec<char> = Vec::new();
    let mut i: usize = 0;
    while i < v.len()
        invariant
            i <= v.len(),
            v@ == s@,
            r@ == clean_numeric(v@.take(i as int)),
        decreases v.len() - i,
    {
        let c = v[i];
        assert(v@.take(i + 1).drop_last() =~= v@.take(i as int));
        if !(c == '\u{20b9}' || c == '$' || c == ',' || c == ' ') {
            r.push(c);
        }
        i = i + 1;
    }
    assert(v@.take(v.len() as int) =~= v@);
    r
}

/// What validation sees of an argument value.
pub enum ArgView {
    Null,
    Bool(bool),
    Int(i64),
    UInt(u64),
    Float(Seq<char>),
    Str(Seq<char>, bool),
    Array(Seq<char>),
    Object(Seq<char>),
    CoercedNumber(Seq<char>),
}

impl View for ArgValue {
    type V = ArgView;

    open spec fn view(&self) -> ArgView {
        match self {
            ArgValue::Null => ArgView::Null,
            ArgValue::Bool(b) => ArgView::Bool(*b),
            ArgValue::Int(i) => ArgView::Int(*i),
            ArgValue::UInt(u) => ArgView::UInt(*u),
            ArgValue::Float(t) => ArgView::Float(t@),
            ArgValue::Str(t, f) => ArgView::Str(t@, *f),
            ArgValue::Array(t) => ArgView::Array(t@),
            ArgValue::Object(t) => ArgView::Object(t@),
            ArgValue::CoercedNumber(t) => ArgView::CoercedNumber(t@),
        }
    }
}

/// The arguments as validation sees them: keys and values.
pub open spec fn args_view(args: Seq<(String, ArgValue)>) -> Seq<(Seq<char>, ArgView)> {
    args.map_values(|p: (String, ArgValue)| (p.0@, p.1@))
}

/// The value of the first argument with the given key.
pub open spec fn arg_get(args: Seq<(Seq<char>, ArgView)>, key: Seq<char>) -> Option<ArgView>
    decreases args.len(),
{
    if args.len() == 0 {
        None
    } else if args[0].0 == key {
        Some(args[0].1)
    } else {
        arg_get(args.drop_first(), key)
    }
}

/// A required field counts as missing when it is absent, null, or the
/// arguments are not an object.
pub open spec fn is_missing(args: Option<Seq<(Seq<char>, ArgView)>>, key: Seq<char>) -> bool {
    match args {
        None => true,
        Some(a) => match arg_get(a, key) {
            None => true,
            Some(v) => v is Null,
        },
    }
}

/// The required fields that are missing, in schema order.
pub open spec fn missing_fields(required: Seq<Seq<char>>, args: Option<Seq<(Seq<char>, ArgView)>>) -> Seq<Seq<char>>
    decreases required.len(),
{
    if required.len() == 0 {
        seq![]
    } else {
        let init = missing_fields(required.drop_last(), args);
        if is_missing(args, required.last()) {
            init.push(required.last())
        } else {
            init
        }
    }
}

/// The parameter with a given name.
pub open spec fn param_for(params: Seq<ParamView>, key: Seq<char>) -> Option<ParamView>
    decreases params.len(),
{
    if params.len() == 0 {
        None
    } else if params[0].name == key {
        Some(params[0])
    } else {
        param_for(params.drop_first(), key)
    }
}

pub open spec fn i64_view(n: int) -> ArgView {
    if n >= 0 {
        ArgView::UInt(n as u64)
    } else {
        ArgView::Int(n as i64)
    }
}

/// The value after coercion and whether it has the expected type: numeric
/// strings become numbers for `number` and `integer` parameters.
pub open spec fn typed_value(kind: ParamType, v: ArgView) -> (ArgView, bool) {
    match kind {
        ParamType::Number => match v {
            ArgView::Int(_) => (v, true),
            ArgView::UInt(_) => (v, true),
            ArgView::Float(_) => (v, true),
            ArgView::CoercedNumber(_) => (v, true),
            ArgView::Str(t, ok) => if ok {
                (ArgView::CoercedNumber(clean_numeric(t)), true)
            } else {
                (v, false)
            },
            _ => (v, false),
        },
        ParamType::Integer => match v {
            ArgView::Int(_) => (v, true),
            ArgView::UInt(_) => (v, true),
            ArgView::Str(t, _) => match parse_int_spec(clean_numeric(t), true, i64::MIN as int, i64::MAX as int) {
                Ok(n) => (i64_view(n), true),
                Err(_) => (v, false),
            },
            _ => (v, false),
        },
        ParamType::Str => (v, v is Str),
        ParamType::Boolean => (v, v is Bool),
        ParamType::Object => (v, v is Object),
        ParamType::Array => (v, v is Array),
    }
}

/// A field error as the contract states it: field, expected type, the
/// offending value and the issue text.
pub struct FieldErrorView {
    pub field: Seq<char>,
    pub expected_type: Seq<char>,
    pub actual_value: Option<ArgView>,
    pub issue: Seq<char>,
}

impl FieldError {
    pub open spec fn fe_view(&self) -> FieldErrorView {
        FieldErrorView {
            field: self.field@,
            expected_type: self.expected_type@,
            actual_value: match self.actual_value {
                Some(v) => Some(v@),
                None => None,
            },
            issue: self.issue@,
        }
    }
}

pub open spec fn fes_view(s: Seq<FieldError>) -> Seq<FieldErrorView> {
    s.map_values(|f: FieldError| f.fe_view())
}

pub open spec fn type_issue(key: Seq<char>, kind: ParamType) -> Seq<char> {
    "Value for field '"@ + key + "' must be of type '"@ + param_type_text(kind) + "'."@
}

pub open spec fn enum_issue(val: Seq<char>, allowed: Seq<Seq<char>>) -> Seq<char> {
    "Invalid enum value '"@ + val + "'. Allowed values are: ["@ + join(allowed, ", "@) + "]"@
}

/// The errors one argument raises against its parameter: a type error, then
/// an enum error for a string outside the allowed values.
pub open spec fn arg_errors(p: ParamView, key: Seq<char>, v: ArgView) -> Seq<FieldErrorView> {
    let (nv, ok) = typed_value(p.kind, v);
    let type_err: Seq<FieldErrorView> = if ok {
        seq![]
    } else {
        seq![FieldErrorView { field: key, expected_type: param_type_text(p.kind), actual_value: Some(nv), issue: type_issue(key, p.kind) }]
    };
    let enum_err: Seq<FieldErrorView> = match (p.enum_values, nv) {
        (Some(vals), ArgView::Str(t, _)) => if vals.contains(t) {
            seq![]
        } else {
            seq![FieldErrorView { field: key, expected_type: "enum_string"@, actual_value: Some(nv), issue: enum_issue(t, vals) }]
        },
        _ => seq![],
    };
    type_err + enum_err
}

/// The value an argument holds after validation.
pub open spec fn validated_value(params: Seq<ParamView>, key: Seq<char>, v: ArgView) -> ArgView {
    match param_for(params, key) {
        Some(p) => typed_value(p.kind, v).0,
        None => v,
    }
}

/// The errors of the first `n` arguments, in argument order.
pub open spec fn invalid_fields(params: Seq<ParamView>, args: Seq<(Seq<char>, ArgView)>, n: int) -> Seq<FieldErrorView>
    decreases n,
{
    if n <= 0 {
        seq![]
    } else {
        let init = invalid_fields(params, args, n - 1);
        match param_for(params, args[n - 1].0) {
            Some(p) => init + arg_errors(p, args[n - 1].0, args[n - 1].1),
            None => init,
        }
    }
}


/// The arguments after validation: each value replaced by its coerced form.
pub open spec fn validated_args(params: Seq<ParamView>, a: Seq<(Seq<char>, ArgView)>) -> Seq<(Seq<char>, ArgView)> {
    a.map_values(|p: (Seq<char>, ArgView)| (p.0, validated_value(params, p.0, p.1)))
}

/// The argument object as validation sees it; `None` when the arguments are
/// not a JSON object.
pub open spec fn opt_args_view(a: Option<Vec<(String, ArgValue)>>) -> Option<Seq<(Seq<char>, ArgView)>> {
    match a {
        Some(v) => Some(args_view(v@)),
        None => None,
    }
}

/// Position of the first argument with the given key.
fn find_arg(args: &Vec<(String, ArgValue)>, key: &str) -> (r: Option<usize>)
    ensures
        match arg_get(args_view(args@), key@) {
            None => r is None,
            Some(v) => r matches Some(i) && i < args@.len() && args@[i as int].1@ == v,
        },
{
    let ghost av = args_view(args@);
    let mut i: usize = 0;
    assert(av.skip(0) =~= av);
    while i < args.len()
        invariant
            i <= args@.len(),
            av == args_view(args@),
            arg_get(av, key@) == arg_get(av.skip(i as int), key@),
        decreases args.len() - i,
    {
        assert(av.skip(i as int)[0] == av[i as int]);
        assert(av.skip(i as int).drop_first() =~= av.skip(i + 1));
        if str_eq(args[i].0.as_str(), key) {
            return Some(i);
        }
        i = i + 1;
    }
    None
}

/// Position of the parameter with the given name.
fn find_param(params: &Vec<ParamSchema>, key: &str) -> (r: Option<usize>)
    ensures
        match param_for(params_views(params@), key@) {
            None => r is None,
            Some(p) => r matches Some(i) && i < params@.len() && params@[i as int].field.param_view() == p,
        },
{
    let ghost pv = params_views(params@);
    let mut i: usize = 0;
    assert(pv.skip(0) =~= pv);
    while i < params.len()
        invariant
            i <= params@.len(),
            pv == params_views(params@),
            param_for(pv, key@) == param_for(pv.skip(i as int), key@),
        decreases params.len() - i,
    {
        assert(pv.skip(i as int)[0] == pv[i as int]);
        assert(pv.skip(i as int).drop_first() =~= pv.skip(i + 1));
        if str_eq(params[i].field.name.as_str(), key) {
            return Some(i);
        }
        i = i + 1;
    }
    None
}

/// The value coerced to a parameter's type, and whether it has that type.
fn typed(kind: ParamType, v: &ArgValue) -> (r: (ArgValue, bool))
    ensures
        (r.0@, r.1) == typed_value(kind, v@),
{
    match kind {
        ParamType::Number => match v {
            ArgValue::Int(_) => (v.duplicate(), true),
            ArgValue::UInt(_) => (v.duplicate(), true),
            ArgValue::Float(_) => (v.duplicate(), true),
            ArgValue::CoercedNumber(_) => (v.duplicate(), true),
            ArgValue::Str(t, ok) => {
                if *ok {
                    let c = clean_numeric_text(t.as_str());
                    (ArgValue::CoercedNumber(string_from_chars(c.as_slice())), true)
                } else {
                    (v.duplicate(), false)
                }
            },
            _ => (v.duplicate(), false),
        },
        ParamType::Integer => match v {
            ArgValue::Int(_) => (v.duplicate(), true),
            ArgValue::UInt(_) => (v.duplicate(), true),
            ArgValue::Str(t, _) => {
                let c = clean_numeric_text(t.as_str());
                match parse_i64(&c) {
                    Ok(n) => {
                        if n >= 0 {
                            (ArgValue::UInt(n as u64), true)
                        } else {
                            (ArgValue::Int(n), true)
                        }
                    },
                    Err(_) => (v.duplicate(), false),
                }
            },
            _ => (v.duplicate(), false),
        },
        ParamType::Str => (v.duplicate(), matches!(v, ArgValue::Str(..))),
        ParamType::Boolean => (v.duplicate(), matches!(v, ArgValue::Bool(..))),
        ParamType::Object => (v.duplicate(), matches!(v, ArgValue::Object(..))),
        ParamType::Array => (v.duplicate(), matches!(v, ArgValue::Array(..))),
    }
}

/// Whether `t` is one of the texts.
fn contains_text(vals: &Vec<String>, t: &str) -> (b: bool)
    ensures
        b == strings_view(vals@).contains(t@),
{
    let ghost sv = strings_view(vals@);
    let mut i: usize = 0;
    while i < vals.len()
        invariant
            i <= vals@.len(),
            sv == strings_view(vals@),
            forall|q: int| 0 <= q < i ==> sv[q] != t@,
        decreases vals.len() - i,
    {
        if str_eq(vals[i].as_str(), t) {
            assert(sv[i as int] == t@);
            return true;
        }
        i = i + 1;
    }
    false
}

/// The texts joined with a separator.
pub fn join_strings(parts: &Vec<String>, sep: &str) -> (r: String)
    ensures
        r@ == join(strings_view(parts@), sep@),
{
    let ghost sv = strings_view(parts@);
    let mut r = String::new();
    let mut i: usize = 0;
    while i < parts.len()
        invariant
            i <= parts@.len(),
            sv == strings_view(parts@),
            r@ == join(sv.take(i as int), sep@),
        decreases parts.len() - i,
    {
        assert(sv.take(i + 1).drop_last() =~= sv.take(i as int));
        if i > 0 {
            r.append(sep);
        }
        r.append(parts[i].as_str());
        i = i + 1;
    }
    assert(sv.take(parts.len() as int) =~= sv);
    r
}

fn type_issue_text(key: &str, kind: ParamType) -> (r: String)
    ensures
        r@ == type_issue(key@, kind),
{
    let mut r = String::new();
    r.append("Value for field '");
    r.append(key);
    r.append("' must be of type '");
    r.append(kind.schema_name());
    r.append("'.");
    r
}

fn enum_issue_text(val: &str, allowed: &Vec<String>) -> (r: String)
    ensures
        r@ == enum_issue(val@, strings_view(allowed@)),
{
    let mut r = String::new();
    r.append("Invalid enum value '");
    r.append(val);
    r.append("'. Allowed values are: [");
    let j = join_strings(allowed, ", ");
    r.append(j.as_str());
    r.append("]");
    r
}

/// Checks one argument against its parameter.
fn check_arg(p: &FieldSchema, key: &String, v: &ArgValue) -> (r: (ArgValue, Vec<FieldError>))
    ensures
        r.0@ == typed_value(p.kind, v@).0,
        fes_view(r.1@) == arg_errors(p.param_view(), key@, v@),
{
    let (nv, ok) = typed(p.kind, v);
    let mut errs: Vec<FieldError> = Vec::new();
    if !ok {
        errs.push(FieldError {
            field: key.clone(),
            expected_type: p.kind.schema_name().to_string(),
            actual_value: Some(nv.duplicate()),
            issue: type_issue_text(key.as_str(), p.kind),
        });
    }
    let ghost type_part = fes_view(errs@);
    match &p.enum_values {
        Some(vals) => match &nv {
            ArgValue::Str(t, _) => {
                if !contains_text(vals, t.as_str()) {
                    errs.push(FieldError {
                        field: key.clone(),
                        expected_type: "enum_string".to_string(),
                        actual_value: Some(nv.duplicate()),
                        issue: enum_issue_text(t.as_str(), vals),
                    });
                }
            },
            _ => {},
        },
        None => {},
    }
    assert(fes_view(errs@) =~= arg_errors(p.param_view(), key@, v@));
    (nv, errs)
}

/// Checks every argument that names a parameter, coercing numeric strings.
fn check_args(params: &Vec<ParamSchema>, args: &Vec<(String, ArgValue)>) -> (r: (Vec<(String, ArgValue)>, Vec<FieldError>))
    ensures
        args_view(r.0@) == validated_args(params_views(params@), args_view(args@)),
        fes_view(r.1@) == invalid_fields(params_views(params@), args_view(args@), args@.len() as int),
{
    let ghost pv = params_views(params@);
    let ghost av = args_view(args@);
    let mut out: Vec<(String, ArgValue)> = Vec::new();
    let mut errs: Vec<FieldError> = Vec::new();
    let mut i: usize = 0;
    while i < args.len()
        invariant
            i <= args@.len(),
            pv == params_views(params@),
            av == args_view(args@),
            out@.len() == i,
            forall|q: int| 0 <= q < i ==> #[trigger] args_view(out@)[q] == (av[q].0, validated_value(pv, av[q].0, av[q].1)),
            fes_view(errs@) == invalid_fields(pv, av, i as int),
        decreases args.len() - i,
    {
        let key = &args[i].0;
        let v = &args[i].1;
        let ghost before = errs@;
        let ghost out0 = out@;
        match find_param(params, key.as_str()) {
            Some(j) => {
                let (nv, mut e) = check_arg(&params[j].field, key, v);
                out.push((key.clone(), nv));
                let ghost e0 = e@;
                errs.append(&mut e);
                assert(fes_view(errs@) =~= fes_view(before) + fes_view(e0));
            },
            None => {
                out.push((key.clone(), v.duplicate()));
            },
        }
        assert(args_view(out@)[i as int] == (av[i as int].0, validated_value(pv, av[i as int].0, av[i as int].1)));
        assert forall|q: int| 0 <= q < i implies #[trigger] args_view(out@)[q] == args_view(out0)[q] by {
            assert(out@[q] == out0[q]);
        }
        i = i + 1;
    }
    assert(args_view(out@) =~= validated_args(pv, av));
    (out, errs)
}

/// The required fields that are absent or null.
fn missing_list(required: &Vec<String>, args: &Option<Vec<(String, ArgValue)>>) -> (r: Vec<String>)
    ensures
        strings_view(r@) == missing_fields(strings_view(required@), opt_args_view(*args)),
{
    let ghost rv = strings_view(required@);
    let mut r: Vec<String> = Vec::new();
    let mut i: usize = 0;
    while i < required.len()
        invariant
            i <= required@.len(),
            rv == strings_view(required@),
            strings_view(r@) == missing_fields(rv.take(i as int), opt_args_view(*args)),
        decreases required.len() - i,
    {
        assert(rv.take(i + 1).drop_last() =~= rv.take(i as int));
        let key = required[i].as_str();
        let miss = match args {
            None => true,
            Some(a) => match find_arg(a, key) {
                None => true,
                Some(j) => matches!(a[j].1, ArgValue::Null),
            },
        };
        let ghost r0 = r@;
        if miss {
            r.push(required[i].clone());
            assert(strings_view(r@) =~= strings_view(r0).push(rv[i as int]));
        }
        i = i + 1;
    }
    assert(rv.take(required.len() as int) =~= rv);
    r
}


/// The wire names of all tools, in registry order.
pub open spec fn all_names_text() -> Seq<Seq<char>> {
    all_tools().map_values(|t: ToolName| tool_name_text(t))
}

/// The report for a tool name that is not registered.
pub open spec fn unknown_tool_report(rep: ToolDiagnosticReport, name: Seq<char>) -> bool {
    &&& rep.tool_name@ == name
    &&& rep.status == DiagnosticStatus::UnknownTool
    &&& rep.error_summary@ == "Tool '"@ + name + "' does not exist in registry."@
    &&& rep.missing_fields@.len() == 0
    &&& rep.invalid_fields@.len() == 0
    &&& rep.expected_schema is None
    &&& strings_view(rep.available_tools@) == all_names_text()
    &&& rep.remediation_prompt@ == "Tool '"@ + name + "' was not found. Please select from available tools: "@ + join(
        all_names_text(),
        ", "@,
    )
}

pub open spec fn missing_remediation(name: Seq<char>, miss: Seq<Seq<char>>) -> Seq<char> {
    "Tool '"@ + name + "' requires missing parameters: ["@ + join(miss, ", "@)
        + "]. Ask the user for these details or supply them."@
}

pub open spec fn invalid_remediation(name: Seq<char>, inv: Seq<FieldErrorView>) -> Seq<char> {
    "Tool '"@ + name + "' received invalid arguments for fields: ["@ + join(
        inv.map_values(|e: FieldErrorView| e.field),
        ", "@,
    ) + "]. Correct the parameter types or enum values."@
}

/// The report for a registered tool `t` whose arguments miss the fields
/// `miss` or raise the errors `inv`.
pub open spec fn validation_report(
    rep: ToolDiagnosticReport,
    name: Seq<char>,
    t: ToolName,
    variants: Seq<Seq<char>>,
    miss: Seq<Seq<char>>,
    inv: Seq<FieldErrorView>,
) -> bool {
    &&& rep.tool_name@ == name
    &&& rep.status == if miss.len() > 0 {
        DiagnosticStatus::MissingArguments
    } else {
        DiagnosticStatus::TypeMismatch
    }
    &&& rep.error_summary@ == "Validation failed before execution."@
    &&& strings_view(rep.missing_fields@) == miss
    &&& fes_view(rep.invalid_fields@) == inv
    &&& rep.expected_schema matches Some(e) && parameters_are(e, t, variants)
    &&& strings_view(rep.available_tools@) == all_names_text()
    &&& rep.remediation_prompt@ == if miss.len() > 0 {
        missing_remediation(name, miss)
    } else {
        invalid_remediation(name, inv)
    }
}

/// The errors validation finds in an argument object (none when the
/// arguments are not an object).
pub open spec fn all_invalid_fields(params: Seq<ParamView>, args: Option<Seq<(Seq<char>, ArgView)>>) -> Seq<FieldErrorView> {
    match args {
        Some(a) => invalid_fields(params, a, a.len() as int),
        None => seq![],
    }
}

/// What validating a call of the registered tool `t` does: the arguments
/// are coerced, and the call is refused exactly when a required field is
/// missing or an argument is invalid.
pub open spec fn known_tool_outcome(
    t: ToolName,
    variants: Seq<Seq<char>>,
    name: Seq<char>,
    before: Option<Seq<(Seq<char>, ArgView)>>,
    after: Option<Seq<(Seq<char>, ArgView)>>,
    r: Result<(), ToolDiagnosticReport>,
) -> bool {
    let params = tool_params(t, variants);
    let miss = missing_fields(tool_required(t), before);
    let inv = all_invalid_fields(params, before);
    &&& after == match before {
        Some(a) => Some(validated_args(params, a)),
        None => None::<Seq<(Seq<char>, ArgView)>>,
    }
    &&& (r is Ok <==> miss.len() == 0 && inv.len() == 0)
    &&& (r matches Err(rep) ==> validation_report(rep, name, t, variants, miss, inv))
}

/// Checks a tool call against the tool's schema before it runs: the tool
/// must be registered, every required field present and not null, and
/// every argument of the declared type (numeric strings are coerced to
/// numbers in place) and within its enum.
pub fn validate_arguments(
    tool_name: &str,
    arguments: &mut Option<Vec<(String, ArgValue)>>,
    loan_policy_variants: &Vec<String>,
) -> (r: Result<(), ToolDiagnosticReport>)
    ensures
        (forall|k: int| 0 <= k < 10 ==> tool_name@ != tool_name_text(#[trigger] all_tools()[k])) ==> (
        *final(arguments) == *old(arguments) && (r matches Err(rep) && unknown_tool_report(rep, tool_name@))),
        forall|k: int|
            0 <= k < 10 && tool_name@ == tool_name_text(#[trigger] all_tools()[k]) ==> known_tool_outcome(
                all_tools()[k],
                strings_view(loan_policy_variants@),
                tool_name@,
                opt_args_view(*old(arguments)),
                opt_args_view(*final(arguments)),
                r,
            ),
{
    let names = ToolName::all_names();
    assert(strings_view(names@) =~= all_names_text());
    let t = match ToolName::from_str(tool_name) {
        Ok(t) => t,
        Err(_) => {
            let mut summary = String::new();
            summary.append("Tool '");
            summary.append(tool_name);
            summary.append("' does not exist in registry.");
            let mut remediation = String::new();
            remediation.append("Tool '");
            remediation.append(tool_name);
            remediation.append("' was not found. Please select from available tools: ");
            let joined = join_strings(&names, ", ");
            remediation.append(joined.as_str());
            return Err(
                ToolDiagnosticReport {
                    tool_name: tool_name.to_string(),
                    status: DiagnosticStatus::UnknownTool,
                    error_summary: summary,
                    missing_fields: Vec::new(),
                    invalid_fields: Vec::new(),
                    expected_schema: None,
                    available_tools: names,
                    remediation_prompt: remediation,
                },
            );
        },
    };
    proof {
        law_tool_name_round_trip(t);
    }
    let ghost variants = strings_view(loan_policy_variants@);
    let ghost before = opt_args_view(*arguments);
    let schema = tool_schema(t, loan_policy_variants);
    let missing = missing_list(&schema.required, arguments);
    let mut invalid: Vec<FieldError> = Vec::new();
    let checked = match arguments {
        Some(a) => Some(check_args(&schema.params, a)),
        None => None,
    };
    match checked {
        Some((na, errs)) => {
            *arguments = Some(na);
            invalid = errs;
        },
        None => {},
    }
    assert(opt_args_view(*arguments) == match before {
        Some(a) => Some(validated_args(tool_params(t, variants), a)),
        None => None::<Seq<(Seq<char>, ArgView)>>,
    });
    assert(fes_view(invalid@) == all_invalid_fields(tool_params(t, variants), before));
    if missing.len() > 0 || invalid.len() > 0 {
        let status = if missing.len() > 0 {
            DiagnosticStatus::MissingArguments
        } else {
            DiagnosticStatus::TypeMismatch
        };
        let mut remediation = String::new();
        remediation.append("Tool '");
        remediation.append(tool_name);
        if missing.len() > 0 {
            remediation.append("' requires missing parameters: [");
            let joined = join_strings(&missing, ", ");
            remediation.append(joined.as_str());
            remediation.append("]. Ask the user for these details or supply them.");
        } else {
            remediation.append("' received invalid arguments for fields: [");
            let mut fields: Vec<String> = Vec::new();
            let mut k: usize = 0;
            while k < invalid.len()
                invariant
                    k <= invalid@.len(),
                    fields@.len() == k,
                    forall|q: int| 0 <= q < k ==> #[trigger] fields@[q]@ == invalid@[q].field@,
                decreases invalid.len() - k,
            {
                fields.push(invalid[k].field.clone());
                k = k + 1;
            }
            assert(strings_view(fields@) =~= fes_view(invalid@).map_values(|e: FieldErrorView| e.field));
            let joined = join_strings(&fields, ", ");
            remediation.append(joined.as_str());
            remediation.append("]. Correct the parameter types or enum values.");
        }
        let mut summary = String::new();
        summary.append("Validation failed before execution.");
        return Err(
            ToolDiagnosticReport {
                tool_name: tool_name.to_string(),
                status,
                error_summary: summary,
                missing_fields: missing,
                invalid_fields: invalid,
                expected_schema: Some(ExpectedSchema::Parameters { params: schema.params, required: schema.required }),
                available_tools: names,
                remediation_prompt: remediation,
            },
        );
    }
    Ok(())
}


/// The name `Debug` prints for a status.
pub open spec fn status_name(s: DiagnosticStatus) -> Seq<char> {
    match s {
        DiagnosticStatus::UnknownTool => "UnknownTool"@,
        DiagnosticStatus::MissingArguments => "MissingArguments"@,
        DiagnosticStatus::TypeMismatch => "TypeMismatch"@,
        DiagnosticStatus::DomainConstraintViolation => "DomainConstraintViolation"@,
        DiagnosticStatus::ExecutionFailed => "ExecutionFailed"@,
    }
}

impl DiagnosticStatus {
    /// The variant's name.
    pub fn name(&self) -> (s: &'static str)
        ensures
            s@ == status_name(*self),
    {
        match self {
            DiagnosticStatus::UnknownTool => "UnknownTool",
            DiagnosticStatus::MissingArguments => "MissingArguments",
            DiagnosticStatus::TypeMismatch => "TypeMismatch",
            DiagnosticStatus::DomainConstraintViolation => "DomainConstraintViolation",
            DiagnosticStatus::ExecutionFailed => "ExecutionFailed",
        }
    }
}

impl ToolDiagnosticReport {
    /// The report in one line, with the remediation when there is one.
    pub fn describe(&self) -> (r: String)
        ensures
            r@ == "["@ + status_name(self.status) + "] Tool '"@ + self.tool_name@ + "' failed: "@ + self.error_summary@
                + if self.remediation_prompt@.len() > 0 {
                ". Remediation: "@ + self.remediation_prompt@
            } else {
                Seq::empty()
            },
    {
        let mut r = String::new();
        r.append("[");
        r.append(self.status.name());
        r.append("] Tool '");
        r.append(self.tool_name.as_str());
        r.append("' failed: ");
        r.append(self.error_summary.as_str());
        if self.remediation_prompt.as_str().unicode_len() > 0 {
            r.append(". Remediation: ");
            r.append(self.remediation_prompt.as_str());
        } else {
            assert(r@ + Seq::<char>::empty() =~= r@);
        }
        r
    }
}

/// The report for a registered tool whose run failed with the message
/// `error`.
pub open spec fn execution_failure(rep: ToolDiagnosticReport, name: Seq<char>, error: Seq<char>, t: ToolName, variants: Seq<Seq<char>>) -> bool {
    &&& rep.tool_name@ == name
    &&& rep.status == DiagnosticStatus::ExecutionFailed
    &&& rep.error_summary@ == "Tool execution runtime error: "@ + error
    &&& rep.missing_fields@.len() == 0
    &&& rep.invalid_fields@.len() == 0
    &&& rep.expected_schema matches Some(ExpectedSchema::Tool(s)) && schema_is(s, t, variants)
    &&& strings_view(rep.available_tools@) == all_names_text()
    &&& rep.remediation_prompt@ == "Execution of tool '"@ + name + "' failed: "@ + error
        + ". Review arguments or ask user for clarified input."@
}

/// Validates a tool call and resolves its tool, the first phase of running
/// a tool: the call goes ahead exactly when validation accepts it.
pub fn prepare_tool_call(
    tool_name: &str,
    arguments: &mut Option<Vec<(String, ArgValue)>>,
    loan_policy_variants: &Vec<String>,
) -> (r: Result<ToolName, ToolDiagnosticReport>)
    ensures
        (forall|k: int| 0 <= k < 10 ==> tool_name@ != tool_name_text(#[trigger] all_tools()[k])) ==> (
        *final(arguments) == *old(arguments) && (r matches Err(rep) && unknown_tool_report(rep, tool_name@))),
        forall|k: int|
            0 <= k < 10 && tool_name@ == tool_name_text(#[trigger] all_tools()[k]) ==> {
                let t = all_tools()[k];
                let variants = strings_view(loan_policy_variants@);
                let before = opt_args_view(*old(arguments));
                let ok = missing_fields(tool_required(t), before).len() == 0 && all_invalid_fields(
                    tool_params(t, variants),
                    before,
                ).len() == 0;
                &&& opt_args_view(*final(arguments)) == match before {
                    Some(a) => Some(validated_args(tool_params(t, variants), a)),
                    None => None::<Seq<(Seq<char>, ArgView)>>,
                }
                &&& (ok ==> r == Ok::<ToolName, ToolDiagnosticReport>(t))
                &&& (!ok ==> (r matches Err(rep) && validation_report(
                    rep,
                    tool_name@,
                    t,
                    variants,
                    missing_fields(tool_required(t), before),
                    all_invalid_fields(tool_params(t, variants), before),
                )))
            },
{
    match validate_arguments(tool_name, arguments, loan_policy_variants) {
        Err(rep) => Err(rep),
        Ok(()) => match ToolName::from_str(tool_name) {
            Ok(t) => {
                proof {
                    law_tool_name_round_trip(t);
                }
                Ok(t)
            },
            Err(_) => {
                let mut summary = String::new();
                summary.append("Unknown tool '");
                summary.append(tool_name);
                summary.append("'");
                let mut remediation = String::new();
                remediation.append("Unknown tool: ");
                remediation.append(tool_name);
                Err(
                    ToolDiagnosticReport {
                        tool_name: tool_name.to_string(),
                        status: DiagnosticStatus::UnknownTool,
                        error_summary: summary,
                        missing_fields: Vec::new(),
                        invalid_fields: Vec::new(),
                        expected_schema: None,
                        available_tools: ToolName::all_names(),
                        remediation_prompt: remediation,
                    },
                )
            },
        },
    }
}

/// The report for a tool run that failed with the message `error`, the
/// last phase of running a tool.
pub fn execution_failure_report(t: ToolName, error: &str, loan_policy_variants: &Vec<String>) -> (rep: ToolDiagnosticReport)
    ensures
        execution_failure(rep, tool_name_text(t), error@, t, strings_view(loan_policy_variants@)),
{
    let name = t.as_str();
    let mut summary = String::new();
    summary.append("Tool execution runtime error: ");
    summary.append(error);
    let mut remediation = String::new();
    remediation.append("Execution of tool '");
    remediation.append(name);
    remediation.append("' failed: ");
    remediation.append(error);
    remediation.append(". Review arguments or ask user for clarified input.");
    let names = ToolName::all_names();
    assert(strings_view(names@) =~= all_names_text());
    ToolDiagnosticReport {
        tool_name: name.to_string(),
        status: DiagnosticStatus::ExecutionFailed,
        error_summary: summary,
        missing_fields: Vec::new(),
        invalid_fields: Vec::new(),
        expected_schema: Some(ExpectedSchema::Tool(tool_schema(t, loan_policy_variants))),
        available_tools: names,
        remediation_prompt: remediation,
    }
}


/// Coercing a value twice gives what coercing it once gave.
pub proof fn lemma_typed_value_idempotent(kind: ParamType, v: ArgView)
    ensures
        typed_value(kind, typed_value(kind, v).0).0 == typed_value(kind, v).0,
        typed_value(kind, v).1 ==> typed_value(kind, typed_value(kind, v).0).1,
{
    match kind {
        ParamType::Integer => match v {
            ArgView::Str(t, _) => match parse_int_spec(clean_numeric(t), true, i64::MIN as int, i64::MAX as int) {
                Ok(n) => {
                    let w = i64_view(n);
                    assert(w is UInt || w is Int);
                },
                Err(_) => {},
            },
            _ => {},
        },
        _ => {},
    }
}

/// Arguments that validation accepted (no invalid field among the first `n`)
/// are accepted again once validated.
proof fn lemma_revalidation_accepts(params: Seq<ParamView>, args: Seq<(Seq<char>, ArgView)>, n: int)
    requires
        0 <= n <= args.len(),
        invalid_fields(params, args, n).len() == 0,
    ensures
        invalid_fields(params, validated_args(params, args), n).len() == 0,
    decreases n,
{
    if n > 0 {
        let once = validated_args(params, args);
        let init = invalid_fields(params, args, n - 1);
        match param_for(params, args[n - 1].0) {
            Some(p) => {
                assert(invalid_fields(params, args, n) == init + arg_errors(p, args[n - 1].0, args[n - 1].1));
                lemma_typed_value_idempotent(p.kind, args[n - 1].1);
                assert(once[n - 1] == (args[n - 1].0, typed_value(p.kind, args[n - 1].1).0));
            },
            None => {
                assert(once[n - 1] == args[n - 1]);
            },
        }
        lemma_revalidation_accepts(params, args, n - 1);
    }
}

/// Validation is idempotent: the arguments it leaves behind are left
/// unchanged by validating them again, and arguments it accepted are
/// accepted again.
pub proof fn law_validation_idempotent(params: Seq<ParamView>, args: Seq<(Seq<char>, ArgView)>)
    ensures
        validated_args(params, validated_args(params, args)) == validated_args(params, args),
        invalid_fields(params, args, args.len() as int).len() == 0 ==> invalid_fields(
            params,
            validated_args(params, args),
            args.len() as int,
        ).len() == 0,
{
    if invalid_fields(params, args, args.len() as int).len() == 0 {
        lemma_revalidation_accepts(params, args, args.len() as int);
    }
    let once = validated_args(params, args);
    assert forall|i: int| 0 <= i < once.len() implies #[trigger] validated_args(params, once)[i] == once[i] by {
        match param_for(params, args[i].0) {
            Some(p) => lemma_typed_value_idempotent(p.kind, args[i].1),
            None => {},
        }
    }
    assert(validated_args(params, once) =~= once);
}

} // verus!
