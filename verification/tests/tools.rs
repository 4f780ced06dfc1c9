use fintally::llm::tools::{
    execution_failure_report, get_tool_schema, prepare_tool_call, tool_definitions, validate_arguments, ArgValue,
    DiagnosticStatus, ExpectedSchema, ParamType, ToolName,
};

fn variants() -> Vec<String> {
    vec!["salaried".to_string(), "self_employed".to_string()]
}

fn args(v: Vec<(&str, ArgValue)>) -> Option<Vec<(String, ArgValue)>> {
    Some(v.into_iter().map(|(k, x)| (k.to_string(), x)).collect())
}

#[test]
fn tool_names_round_trip() {
    let names = ToolName::all_names();
    assert_eq!(names.len(), 10);
    assert_eq!(names[0], "calculate_emi");
    assert_eq!(names[5], "generate_investment_plan");
    for n in &names {
        let t = ToolName::from_str(n).unwrap();
        assert_eq!(t.as_str(), n.as_str());
    }
    assert!(ToolName::from_str("calculate emi").is_err());
}

#[test]
fn registry_schemas() {
    let defs = tool_definitions(&variants());
    assert_eq!(defs.len(), 10);
    assert_eq!(defs[0].name, "calculate_emi");
    assert_eq!(defs[0].required, vec!["principal", "annual_rate", "tenure_months"]);
    assert!(matches!(defs[0].params[2].field.kind, ParamType::Integer));
    let budget = get_tool_schema("generate_budget", &variants()).unwrap();
    assert_eq!(budget.params[2].field.enum_values, Some(variants()));
    assert!(get_tool_schema("nope", &variants()).is_none());
}

#[test]
fn unknown_tool_is_reported() {
    let mut a = args(vec![]);
    let rep = validate_arguments("teleport", &mut a, &variants()).unwrap_err();
    assert_eq!(rep.status, DiagnosticStatus::UnknownTool);
    assert_eq!(rep.error_summary, "Tool 'teleport' does not exist in registry.");
    assert!(rep.remediation_prompt.starts_with("Tool 'teleport' was not found. Please select from available tools: calculate_emi, assess_loan,"));
    assert!(rep.expected_schema.is_none());
}

#[test]
fn missing_arguments_are_reported() {
    let mut a = args(vec![("principal", ArgValue::Int(500000)), ("annual_rate", ArgValue::Null)]);
    let rep = validate_arguments("calculate_emi", &mut a, &variants()).unwrap_err();
    assert_eq!(rep.status, DiagnosticStatus::MissingArguments);
    assert_eq!(rep.missing_fields, vec!["annual_rate", "tenure_months"]);
    assert_eq!(rep.error_summary, "Validation failed before execution.");
    assert_eq!(
        rep.remediation_prompt,
        "Tool 'calculate_emi' requires missing parameters: [annual_rate, tenure_months]. Ask the user for these details or supply them."
    );
}

#[test]
fn numeric_strings_are_coerced() {
    let mut a = args(vec![
        ("principal", ArgValue::Str("\u{20b9}5,00,000".to_string(), true)),
        ("annual_rate", ArgValue::Float("8.5".to_string())),
        ("tenure_months", ArgValue::Str(" 36 ".to_string(), false)),
    ]);
    assert!(validate_arguments("calculate_emi", &mut a, &variants()).is_ok());
    let a = a.unwrap();
    assert!(matches!(&a[0].1, ArgValue::CoercedNumber(t) if t == "500000"));
    assert!(matches!(a[2].1, ArgValue::UInt(36)));
}

#[test]
fn type_and_enum_errors_are_reported() {
    let mut a = args(vec![
        ("monthly_income", ArgValue::Bool(true)),
        ("profile", ArgValue::Str("student".to_string(), false)),
    ]);
    let rep = validate_arguments("generate_budget", &mut a, &variants()).unwrap_err();
    assert_eq!(rep.status, DiagnosticStatus::TypeMismatch);
    assert_eq!(rep.invalid_fields.len(), 2);
    assert_eq!(rep.invalid_fields[0].field, "monthly_income");
    assert_eq!(rep.invalid_fields[0].expected_type, "number");
    assert_eq!(rep.invalid_fields[0].issue, "Value for field 'monthly_income' must be of type 'number'.");
    assert_eq!(rep.invalid_fields[1].expected_type, "enum_string");
    assert_eq!(
        rep.invalid_fields[1].issue,
        "Invalid enum value 'student'. Allowed values are: [young_professional, family_with_dependents, retiree_income_focused, single_parent]"
    );
    assert_eq!(
        rep.remediation_prompt,
        "Tool 'generate_budget' received invalid arguments for fields: [monthly_income, profile]. Correct the parameter types or enum values."
    );
    assert!(rep.describe().starts_with("[TypeMismatch] Tool 'generate_budget' failed: Validation failed before execution.. Remediation: "));
}

#[test]
fn non_object_arguments_miss_every_required_field() {
    let mut a: Option<Vec<(String, ArgValue)>> = None;
    let rep = validate_arguments("profile_similarity", &mut a, &variants()).unwrap_err();
    assert_eq!(rep.missing_fields, vec!["a", "b", "metric"]);
    assert!(a.is_none());
    match rep.expected_schema {
        Some(ExpectedSchema::Parameters { params, required }) => {
            let names: Vec<&str> = params.iter().map(|p| p.field.name.as_str()).collect();
            assert_eq!(names, vec!["a", "b", "metric"]);
            assert_eq!(required, vec!["a", "b", "metric"]);
        }
        _ => panic!("a validation report shows the argument object"),
    }
}

#[test]
fn prepared_calls_name_their_tool() {
    let mut a = args(vec![("monthly_expense", ArgValue::UInt(40000))]);
    assert_eq!(prepare_tool_call("emergency_fund", &mut a, &variants()).ok(), Some(ToolName::EmergencyFund));
    let rep = execution_failure_report(ToolName::CalculateTax, "boom", &variants());
    assert_eq!(rep.status, DiagnosticStatus::ExecutionFailed);
    assert_eq!(rep.error_summary, "Tool execution runtime error: boom");
    assert_eq!(rep.remediation_prompt, "Execution of tool 'calculate_tax' failed: boom. Review arguments or ask user for clarified input.");
    match rep.expected_schema {
        Some(ExpectedSchema::Tool(s)) => assert_eq!(s.name, "calculate_tax"),
        _ => panic!("an execution failure shows the whole tool schema"),
    }
}
