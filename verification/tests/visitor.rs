use yaserde::Visitor;

#[test]
fn default_visitor() {
  struct Test;
  impl<'de> Visitor<'de> for Test {
    type Value = u8;
  }

  assert_eq!(Test.visit_bool(""), Err("Unexpected bool \"\"".to_string()));
  assert_eq!(Test.visit_i8(""), Err("Unexpected i8 \"\"".to_string()));
  assert_eq!(Test.visit_u8(""), Err("Unexpected u8 \"\"".to_string()));
  assert_eq!(Test.visit_i16(""), Err("Unexpected i16 \"\"".to_string()));
  assert_eq!(Test.visit_u16(""), Err("Unexpected u16 \"\"".to_string()));
  assert_eq!(Test.visit_i32(""), Err("Unexpected i32 \"\"".to_string()));
  assert_eq!(Test.visit_u32(""), Err("Unexpected u32 \"\"".to_string()));
  assert_eq!(Test.visit_i64(""), Err("Unexpected i64 \"\"".to_string()));
  assert_eq!(Test.visit_u64(""), Err("Unexpected u64 \"\"".to_string()));
  assert_eq!(Test.visit_str(""), Err("Unexpected str \"\"".to_string()));
}

#[test]
fn default_visitor_quotes_and_escapes_the_text() {
  struct Test;
  impl<'de> Visitor<'de> for Test {
    type Value = u8;
  }

  assert_eq!(Test.visit_f64("1.5"), Err("Unexpected f64 \"1.5\"".to_string()));
  assert_eq!(Test.visit_f32("a\"b"), Err("Unexpected f32 \"a\\\"b\"".to_string()));
}
