use yogurt::argument::parser::{BoundedIntArgument, IntArgument, StringArgument};
use yogurt::{Error, ExecContext, InvalidCommandReason};

#[test]
fn fresh_context_binds_nothing() {
    let context = ExecContext::new(5u8);
    assert_eq!(*context.context(), 5u8);
    assert_eq!(
        context.get("name", StringArgument),
        Err(Error::InvalidCommand(InvalidCommandReason::MissingArgument))
    );
}

#[test]
fn bound_arguments_are_found_again() {
    let mut context = ExecContext::new(());
    context.insert_argument("name".to_string(), "ferris".to_string());
    context.insert_argument("age".to_string(), "9".to_string());
    assert_eq!(context.get("name", StringArgument), Ok("ferris".to_string()));
    assert_eq!(context.get("age", IntArgument), Ok(9));
    assert_eq!(context.get("age", StringArgument), Ok("9".to_string()));
    assert_eq!(
        context.get("Name", StringArgument),
        Err(Error::InvalidCommand(InvalidCommandReason::MissingArgument))
    );
}

#[test]
fn later_binding_replaces_earlier() {
    let mut context = ExecContext::new(());
    context.insert_argument("age".to_string(), "9".to_string());
    context.insert_argument("age".to_string(), "10".to_string());
    assert_eq!(context.get("age", IntArgument), Ok(10));
}

#[test]
fn bound_value_that_does_not_convert() {
    let mut context = ExecContext::new(());
    context.insert_argument("age".to_string(), "nine".to_string());
    context.insert_argument("level".to_string(), "11".to_string());
    assert_eq!(
        context.get("age", IntArgument),
        Err(Error::InvalidCommand(InvalidCommandReason::InvalidArgument))
    );
    assert_eq!(
        context.get("level", BoundedIntArgument::new(0, 10)),
        Err(Error::InvalidCommand(InvalidCommandReason::InvalidArgument))
    );
    assert_eq!(context.get("level", BoundedIntArgument::new(0, 11)), Ok(11));
}

#[test]
fn context_keeps_the_callers_value() {
    let mut context = ExecContext::new(vec![1, 2, 3]);
    context.insert_argument("a".to_string(), "b".to_string());
    assert_eq!(context.context(), &vec![1, 2, 3]);
}
