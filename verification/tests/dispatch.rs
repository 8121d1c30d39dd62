use yogurt::argument::parser::{ArgumentParser, IntArgument, StringArgument};
use yogurt::{Command, Dispatcher, Error, ExecContext, InvalidCommandReason};

type Handler<O> = fn(&ExecContext<()>) -> Result<O, Error>;
type Factory = fn(&()) -> ();

#[test]
fn command() {
    let dispatcher = Dispatcher::<(), (), (), Handler<()>, Factory>::builder()
        .prefix("/")
        .base_context(())
        .context_factory(|_| ())
        .child(
            Command::<(), (), Handler<()>>::literal("hello")
                .exec(|ctx| {
                    println!("{ctx:?}");
                    Ok(())
                })
                .child(Command::<(), (), Handler<()>>::argument("num", IntArgument, true).exec(|ctx| {
                    println!("{ctx:?}");
                    Ok(())
                })),
        )
        .build()
        .unwrap();

    dispatcher.run_command("/hello").unwrap();
    dispatcher.run_command("/hello 1").unwrap();
}

#[test]
fn command_with_output() {
    let dispatcher = Dispatcher::<(), String, (), Handler<String>, Factory>::builder()
        .base_context(())
        .context_factory(|_| ())
        .child(Command::<(), String, Handler<String>>::literal("hello").exec(|ctx| {
            println!("{ctx:?}");
            Ok("hello".to_string())
        }))
        .build()
        .unwrap();

    let output = dispatcher.run_command("hello").unwrap();
    assert_eq!(output, vec!["hello".to_string()])
}

#[test]
fn optional_argument() {
    let dispatcher = Dispatcher::<(), (), (), Handler<()>, Factory>::builder()
        .base_context(())
        .context_factory(|_| ())
        .child(
            Command::<(), (), Handler<()>>::literal("test").child(
                Command::<(), (), Handler<()>>::argument("num", IntArgument, false).child(
                    Command::<(), (), Handler<()>>::argument("string", StringArgument, true).exec(
                        |ctx| {
                            println!("{ctx:?}");
                            Ok(())
                        },
                    ),
                ),
            ),
        )
        .build()
        .unwrap();

    dispatcher.run_command("test 1 hello").unwrap();
    dispatcher.run_command("test hello").unwrap();
}

#[test]
fn string_argument() {
    assert_eq!(StringArgument.parse("hello"), Ok(String::from("hello")))
}

#[test]
fn int_argument() {
    assert_eq!(IntArgument.parse("123"), Ok(123));
    assert_eq!(
        IntArgument.parse("abc"),
        Err(Error::InvalidCommand(InvalidCommandReason::InvalidArgument))
    )
}
