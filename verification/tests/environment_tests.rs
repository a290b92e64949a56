use envyc::environment::Environment;
use envyc::semantic_analyzer::types::Type;

#[test]
fn inner_scope_shadows_and_outer_binding_is_restored() {
    let x = 7;
    let mut env: Environment<Type> = Environment::new();
    env.new_scope();
    env.define(x, Type::Int);
    env.new_scope();
    env.define(x, Type::Float);
    assert_eq!(env.get(x), Some(Type::Float));
    env.remove_top_scope();
    assert_eq!(env.get(x), Some(Type::Int));
}

#[test]
fn get_of_an_unbound_name_is_none() {
    let mut env: Environment<Type> = Environment::new();
    assert_eq!(env.get(0), None);
    env.new_scope();
    assert_eq!(env.get(0), None);
    env.define(1, Type::Boolean);
    assert_eq!(env.get(0), None);
    assert_eq!(env.get(1), Some(Type::Boolean));
}

#[test]
fn define_overwrites_within_one_scope() {
    let mut env: Environment<Type> = Environment::new();
    env.new_scope();
    env.define(3, Type::Int);
    env.define(3, Type::Char);
    assert_eq!(env.get(3), Some(Type::Char));
}

#[test]
fn inner_scope_sees_outer_bindings() {
    let mut env: Environment<Type> = Environment::new();
    env.new_scope();
    env.define(1, Type::Int);
    env.new_scope();
    env.define(2, Type::Float);
    assert_eq!(env.get(1), Some(Type::Int));
    assert_eq!(env.get(2), Some(Type::Float));
    env.remove_top_scope();
    assert_eq!(env.get(2), None);
    assert_eq!(env.get(1), Some(Type::Int));
}

#[test]
fn closing_the_last_scope_forgets_everything() {
    let mut env: Environment<u64> = Environment::new();
    env.new_scope();
    env.define(5, 50);
    env.remove_top_scope();
    assert_eq!(env.get(5), None);
}
