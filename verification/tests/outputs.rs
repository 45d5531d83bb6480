use fmu_runner::model_description::ScalarVariable;
use fmu_runner::outputs::{outputs_to_string, texts_to_string};
use fmu_runner::values::VariableValues;

fn variable(name: &str, value_reference: u32) -> ScalarVariable {
    ScalarVariable {
        name: name.to_string(),
        value_reference,
    }
}

#[test]
fn reals_have_three_decimals() {
    let height = variable("height", 1);
    let speed = variable("speed", 0);
    let mut outputs = VariableValues::new();
    outputs.insert(&speed, -0.5);
    outputs.insert(&height, 2.0 / 3.0);
    assert_eq!(
        outputs_to_string(&outputs),
        "height: 0.667 | speed: -0.500 | "
    );
}

#[test]
fn integers_have_no_decimals() {
    let count = variable("count", 1);
    let mut outputs = VariableValues::new();
    outputs.insert(&count, 12345);
    assert_eq!(outputs_to_string(&outputs), "count: 12345 | ");
}

#[test]
fn no_outputs_give_no_text() {
    assert_eq!(outputs_to_string(&VariableValues::<f64>::new()), "");
    assert_eq!(texts_to_string(&VariableValues::new()), "");
}

#[test]
fn outputs_are_ordered_by_name() {
    let names = ["b", "a", "B", "ab", "", "z", "\u{e9}", "a.b", "\u{1f600}", "\u{ffff}"];
    let variables: Vec<ScalarVariable> = names.iter().map(|name| variable(name, 0)).collect();
    let mut outputs = VariableValues::new();
    for (i, variable) in variables.iter().enumerate() {
        outputs.insert(variable, i);
    }
    assert_eq!(
        outputs_to_string(&outputs),
        ": 4 | B: 2 | a: 1 | a.b: 7 | ab: 3 | b: 0 | z: 5 | \u{e9}: 6 | \u{ffff}: 9 | \u{1f600}: 8 | "
    );
}

#[test]
fn the_text_does_not_depend_on_the_order_of_insertion() {
    let a = variable("a", 3);
    let b = variable("b", 2);
    let c = variable("c", 1);
    let mut first = VariableValues::new();
    first.insert(&c, 1.0);
    first.insert(&a, 2.0);
    first.insert(&b, 3.0);
    let mut second = VariableValues::new();
    second.insert(&a, 9.0);
    second.insert(&b, 3.0);
    second.insert(&c, 1.0);
    second.insert(&a, 2.0);
    assert_eq!(outputs_to_string(&first), outputs_to_string(&second));
    assert_eq!(
        outputs_to_string(&first),
        "a: 2.000 | b: 3.000 | c: 1.000 | "
    );
}

#[test]
fn variables_of_one_name_are_all_listed() {
    let first = variable("a", 1);
    let second = variable("a", 2);
    let mut outputs = VariableValues::new();
    outputs.insert(&second, "two".to_string());
    outputs.insert(&first, "one".to_string());
    assert_eq!(texts_to_string(&outputs), "a: two | a: one | ");
}
