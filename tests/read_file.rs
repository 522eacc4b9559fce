use tommy::coerce::CharPolicy;
use tommy::config::{FromTable, ParseConfig};
use tommy::table::{FieldError, Table, TableModel};

fn lines_of(text: &str) -> Vec<String> {
    text.lines().map(|l| l.to_string()).collect()
}

fn float_field(t: &Table, key: &str) -> Result<f64, FieldError> {
    match t.get(key) {
        None => Err(FieldError::Missing(key.to_string())),
        Some(v) => match v.as_float_text() {
            Some(s) => Ok(s.parse::<f64>().unwrap()),
            None => Err(FieldError::WrongKind(key.to_string())),
        },
    }
}

#[derive(Debug)]
struct SomeTable {
    string: String,
    number: i32,
    float: f64,
    boolean: bool,
}

impl FromTable for SomeTable {
    // Proof-only items of the trait: Verus reads them, nothing calls them at run time.
    fn accepts(_t: TableModel) -> bool {
        unreachable!()
    }

    fn builds(_t: TableModel, _x: Self) -> bool {
        unreachable!()
    }

    fn from_table(t: &Table) -> Result<Self, FieldError> {
        Ok(SomeTable {
            string: t.field("string")?,
            number: t.field("number")?,
            float: float_field(t, "float")?,
            boolean: t.field("boolean")?,
        })
    }
}

#[derive(Debug)]
struct Cursor {
    blink: bool,
    blink_duration: i32,
}

impl FromTable for Cursor {
    // Proof-only items of the trait: Verus reads them, nothing calls them at run time.
    fn accepts(_t: TableModel) -> bool {
        unreachable!()
    }

    fn builds(_t: TableModel, _x: Self) -> bool {
        unreachable!()
    }

    fn from_table(t: &Table) -> Result<Self, FieldError> {
        Ok(Cursor {
            blink: t.field("blink")?,
            blink_duration: t.field("blink_duration")?,
        })
    }
}

const TEST_FILE: &str = "# settings used by the tests
[first_table]
string = hello there
number = 42
float = 3.14
boolean = true

[second_table]
string = second
number = -3
float = 0.5
boolean = false
";

#[test]
fn lib_read_the_test_file() {
    let parsed = ParseConfig::from_lines("src/test.toml".to_string(), &lines_of(TEST_FILE), CharPolicy::Bare);
    let first_table: SomeTable = parsed.table("first_table").unwrap();
    let second_table: SomeTable = parsed.table("second_table").unwrap();
    println!("{:#?}", first_table);
    println!("{:#?}", second_table);
    assert_eq!(first_table.string, "hello there");
    assert_eq!(first_table.number, 42);
    assert_eq!(first_table.float, 3.14);
    assert!(first_table.boolean);
    assert_eq!(second_table.string, "second");
    assert_eq!(second_table.number, -3);
    assert_eq!(second_table.float, 0.5);
    assert!(!second_table.boolean);
}

#[test]
fn test_read_the_test_file() {
    let user = "[window]\ntitle = editor\nwidth = 800.0\nheight = 600.0\n";
    let fallback = "[cursor]\nblink = true\nblink_duration = 500\n\n[icons]\nentry = >\nexit = <\ncontrols = ?\n";
    let parsed_user = ParseConfig::from_lines("test.toml".to_string(), &lines_of(user), CharPolicy::Bare);
    let parsed_fabk = ParseConfig::from_lines("fallback.toml".to_string(), &lines_of(fallback), CharPolicy::Bare);

    let cursor_conf: Cursor = parsed_user
        .table("cursor")
        .or_else(|| parsed_fabk.table("cursor"))
        .unwrap();
    println!("{:#?}", cursor_conf);
    assert!(cursor_conf.blink);
    assert_eq!(cursor_conf.blink_duration, 500);

    let icons = parsed_fabk.find_table("icons").unwrap();
    assert_eq!(icons.field::<char>("entry"), Ok('>'));
    assert_eq!(icons.field::<char>("controls"), Ok('?'));
}
