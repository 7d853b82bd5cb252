use regvm::compiler::error::{Error, ErrorKind};
use regvm::compiler::language_components::{BinaryOperator, Span};

#[test]
fn error_format() {
    let error = Error::new(
        String::from("test"),
        String::from("1 + true"),
        ErrorKind::InvalidBinaryOperation(
            BinaryOperator::Add,
            String::from("int"),
            String::from("bool"),
        ),
        Span::new(0, 8),
        Span::new(2, 3),
    );
    let expected = "In file: test
In line 1:

 1| 1 + true
      ^

Error: Invalid operation '+' for types 'int' and 'bool'";
    assert_eq!(error.format_to_string(), expected);

    let error = Error::new(
        String::from("test"),
        String::from("1 + true"),
        ErrorKind::InvalidBinaryOperation(
            BinaryOperator::Add,
            String::from("int"),
            String::from("bool"),
        ),
        Span::new(0, 8),
        Span::new(0, 8),
    );
    let expected = "In file: test
In line 1:

 1| 1 + true
    ^^^^^^^^

Error: Invalid operation '+' for types 'int' and 'bool'";
    assert_eq!(error.format_to_string(), expected);

    let error = Error::new(
        String::from("test"),
        String::from("5 + 1 * true and false"),
        ErrorKind::InvalidBinaryOperation(
            BinaryOperator::Mul,
            String::from("int"),
            String::from("bool"),
        ),
        Span::new(4, 12),
        Span::new(4, 12),
    );
    let expected = "In file: test
In line 1:

 1| 5 + 1 * true and false
        ^^^^^^^^

Error: Invalid operation '*' for types 'int' and 'bool'";
    assert_eq!(error.format_to_string(), expected);

    let error = Error::new(
        String::from("test"),
        String::from(
            "// comment 1
// comment 2
// comment 3
// comment 4
// comment 5
// comment 6
// comment 7
// comment 8
5 % 2 -
'C' and false and true
// final comment",
        ),
        ErrorKind::InvalidBinaryOperation(
            BinaryOperator::Sub,
            String::from("int"),
            String::from("char"),
        ),
        Span::new(108, 115),
        Span::new(108, 115),
    );
    let expected = "In file: test
In line 9:

  9| 5 % 2 -
         ^^^
 10| 'C' and false and true
     ^^^

Error: Invalid operation '-' for types 'int' and 'char'";
    assert_eq!(error.format_to_string(), expected);
}
