use backend::config::{apply_vars, substitute, vars_name};

fn s(v: &str) -> String {
    v.to_string()
}

#[test]
fn vars_name_from_command_line() {
    assert_eq!(vars_name(&vec![s("app"), s("--config-vars"), s("prod")]), "prod");
    assert_eq!(vars_name(&vec![s("app")]), "default");
    assert_eq!(vars_name(&vec![s("app"), s("--config-vars")]), "default");
    assert_eq!(
        vars_name(&vec![s("--config-vars"), s("a"), s("--config-vars"), s("b")]),
        "a"
    );
}

#[test]
fn placeholders_are_replaced() {
    let vars = vec![(s("host"), s("db.local")), (s("port"), s("27017"))];
    let out = substitute(s("mongodb://${host}:${port}/${host}"), &vars);
    assert_eq!(out, "mongodb://db.local:27017/db.local");
    assert_eq!(substitute(s("$host {host}"), &vars), "$host {host}");
}

#[test]
fn named_set_is_applied() {
    let sets = vec![
        (s("default"), vec![(s("p"), s("1"))]),
        (s("prod"), vec![(s("p"), s("2"))]),
    ];
    assert_eq!(apply_vars(s("port=${p}"), &sets, &vec![s("x")]), "port=1");
    assert_eq!(
        apply_vars(s("port=${p}"), &sets, &vec![s("x"), s("--config-vars"), s("prod")]),
        "port=2"
    );
    assert_eq!(
        apply_vars(s("port=${p}"), &sets, &vec![s("--config-vars"), s("qa")]),
        "port=${p}"
    );
}
