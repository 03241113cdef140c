use plitedb::lexer::tokenize;
use plitedb::render::render_tokens;
use plitedb::token::TokenType;

fn kinds_of(text: &str) -> Vec<TokenType> {
    tokenize(text).unwrap().into_iter().map(|t| t.token_type).collect()
}

#[test]
fn render_writes_each_token_and_a_space() {
    let tokens = tokenize("GET users WHERE{age>=18,name!='Bob'}").unwrap();
    assert_eq!(render_tokens(&tokens), "GET users WHERE { age >= 18 , name != 'Bob' } ");
}

#[test]
fn render_quotes_with_the_quote_a_string_lacks() {
    let tokens = tokenize("\"it's\" 'say \"hi\"'").unwrap();
    assert_eq!(render_tokens(&tokens), "\"it's\" 'say \"hi\"' ");
}

#[test]
fn retokenizing_rendered_text_keeps_kinds() {
    for text in [
        "PUT users { userId: 'abcd123', name: 'Alice', age: 30, isRegistered: true }",
        "GET users WHERE { age >= 18, total < price * (2 + -x) ^ 3 % 4 / 5 }",
        "a>b<c<=d=e;f.g 1.2.3 _x9 \"it's\"",
        "",
    ] {
        let first = kinds_of(text);
        let again = kinds_of(&render_tokens(&tokenize(text).unwrap()));
        assert_eq!(again, first);
    }
}
