use lox::environment::{Environment, RuntimeError};
use lox::location::FileLocation;
use lox::token::{Token, TokenType};

fn identifier(lexeme: &str) -> Token {
    let blank_location = FileLocation::new(0, 0);
    Token::new(
        TokenType::Identifier,
        lexeme,
        blank_location,
        blank_location,
        None,
    )
}

#[test]
fn environment_test_environment() {
    let mut environment: Environment<String> = Environment::new();
    let a_token = identifier("a");

    let result = environment.get(&a_token);
    assert_eq!(
        result,
        Err(RuntimeError {
            message: "Undefined variable 'a'".to_string()
        })
    );

    let a_initial_value = "a value".to_string();
    let result = environment.assign(&a_token, &a_initial_value);
    assert_eq!(
        result,
        Err(RuntimeError {
            message: "Undefined variable 'a'".to_string()
        })
    );

    environment.define(&a_token.lexeme, &a_initial_value);
    let result = environment.get(&a_token);
    assert_eq!(result, Ok(a_initial_value));

    let a_updated_value = "a value (updated)".to_string();
    let result = environment.assign(&a_token, &a_updated_value);
    assert_eq!(result, Ok(()));

    let result = environment.get(&a_token);
    assert_eq!(result, Ok(a_updated_value));
}

#[test]
fn environment_test_nested_environment() {
    let mut environment: Environment<String> = Environment::new();
    let a_token = identifier("a");
    let b_token = identifier("b");
    let c_token = identifier("c");

    let a_initial_value = "a value".to_string();
    let b_initial_value = "b value".to_string();
    let c_initial_value = "c value".to_string();
    environment.define(&a_token.lexeme, &a_initial_value);
    environment.define(&b_token.lexeme, &b_initial_value);

    environment.new_frame();
    let a_nested_value = "a value (nested)".to_string();
    let b_updated_value = "b value (updated)".to_string();
    environment.define(&a_token.lexeme, &a_nested_value);
    environment.define(&c_token.lexeme, &c_initial_value);

    let result = environment.assign(&b_token, &b_updated_value);
    assert_eq!(result, Ok(()));

    let result = environment.get(&a_token);
    assert_eq!(result, Ok(a_nested_value));

    let result = environment.get(&b_token);
    assert_eq!(result, Ok(b_updated_value.clone()));

    let result = environment.get(&c_token);
    assert_eq!(result, Ok(c_initial_value));

    environment.pop_frame();

    let result = environment.get(&a_token);
    assert_eq!(result, Ok(a_initial_value));

    let result = environment.get(&b_token);
    assert_eq!(result, Ok(b_updated_value.clone()));

    let result = environment.get(&c_token);
    assert_eq!(
        result,
        Err(RuntimeError {
            message: "Undefined variable 'c'".to_string()
        })
    );
}

#[test]
fn defining_again_replaces_the_value() {
    let mut environment: Environment<u32> = Environment::new();
    let a_token = identifier("a");
    environment.define("a", &1);
    environment.define("a", &2);
    assert_eq!(environment.get(&a_token), Ok(2));
    assert_eq!(environment.frames[0].values.len(), 1);
}

#[test]
fn popping_a_frame_forgets_its_definitions() {
    let mut environment: Environment<u32> = Environment::new();
    let x_token = identifier("x");
    environment.new_frame();
    environment.define("x", &7);
    assert_eq!(environment.get(&x_token), Ok(7));
    environment.pop_frame();
    assert!(environment.get(&x_token).is_err());
}
