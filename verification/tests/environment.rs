use loxy::ast::{ExprB, Identifier};
use loxy::environment::Env;
use loxy::err::EnvErr;

fn name(text: &str) -> String {
    text.to_string()
}

fn value(text: &str) -> ExprB {
    ExprB::mk_string(text.to_string())
}

#[test]
fn fresh_environments() {
    let (global, root) = Env::fresh_global_handle();
    assert_eq!(root, 0);
    assert_eq!(global.size(), 1);
    assert_eq!(global.depth(root), 0);
    assert_eq!(global.enclosing(root), None);

    let (standard, inner) = Env::fresh_std_env();
    assert_eq!(inner, 1);
    assert_eq!(standard.size(), 2);
    assert_eq!(standard.depth(inner), 1);
    assert_eq!(standard.enclosing(inner), Some(0));
}

#[test]
fn a_child_is_one_deeper_than_its_parent() {
    let (mut env, at) = Env::fresh_std_env();
    let first = env.narrow(at);
    let second = env.narrow(first);
    let sibling = env.narrow(at);
    assert_eq!(env.depth(first), env.depth(at) + 1);
    assert_eq!(env.depth(second), env.depth(first) + 1);
    assert_eq!(env.depth(sibling), env.depth(at) + 1);
    assert_eq!(env.enclosing(second), Some(first));
    assert_eq!(env.enclosing(sibling), Some(at));
}

#[test]
fn insert_puts_and_shadows() {
    let (mut env, at) = Env::fresh_std_env();
    assert_eq!(env.insert(at, &name("a"), value("outer")), None);
    assert_eq!(
        env.insert(at, &name("a"), value("again")),
        Some(value("outer"))
    );
    let inner = env.narrow(at);
    assert_eq!(env.insert(inner, &name("a"), value("inner")), None);
    assert_eq!(
        env.get(inner, &Identifier::fresh(name("a"), Some(0))),
        Some(value("inner"))
    );
    assert_eq!(
        env.get(inner, &Identifier::fresh(name("a"), Some(1))),
        Some(value("again"))
    );
    assert_eq!(
        env.get(at, &Identifier::fresh(name("a"), Some(0))),
        Some(value("again"))
    );
}

#[test]
fn get_follows_the_offset_only() {
    let (mut env, at) = Env::fresh_std_env();
    env.insert(at, &name("a"), value("here"));
    let inner = env.narrow(at);
    assert_eq!(env.get(inner, &Identifier::fresh(name("a"), None)), None);
    assert_eq!(env.get(inner, &Identifier::fresh(name("a"), Some(0))), None);
    assert_eq!(
        env.get(inner, &Identifier::fresh(name("a"), Some(1))),
        Some(value("here"))
    );
    assert_eq!(env.get(inner, &Identifier::fresh(name("a"), Some(2))), None);
    assert_eq!(env.get(inner, &Identifier::fresh(name("a"), Some(3))), None);
    assert_eq!(env.get(99, &Identifier::fresh(name("a"), Some(0))), None);
}

#[test]
fn offset_counts_frames_to_the_declaration() {
    let (mut env, at) = Env::fresh_std_env();
    env.insert(0, &name("builtin"), ExprB::Nil);
    env.insert(at, &name("a"), ExprB::Nil);
    let first = env.narrow(at);
    env.insert(first, &name("b"), ExprB::Nil);
    let second = env.narrow(first);
    env.insert(second, &name("a"), ExprB::Nil);
    assert_eq!(env.offset(second, &name("a")), Some(0));
    assert_eq!(env.offset(second, &name("b")), Some(1));
    assert_eq!(env.offset(second, &name("builtin")), Some(3));
    assert_eq!(env.offset(first, &name("a")), Some(1));
    assert_eq!(env.offset(second, &name("missing")), None);
    assert_eq!(env.offset(at, &name("b")), None);
}

#[test]
fn a_resolved_name_is_found_and_an_unresolved_one_is_not() {
    let (mut env, at) = Env::fresh_std_env();
    env.insert(at, &name("a"), value("found"));
    let first = env.narrow(at);
    let second = env.narrow(first);
    for text in ["a", "b"] {
        let offset = env.offset(second, &name(text));
        let identifier = Identifier::fresh(name(text), offset);
        assert_eq!(env.get(second, &identifier).is_some(), offset.is_some());
        assert_eq!(env.holder_of(second, &name(text)).is_some(), offset.is_some());
        if let Some(steps) = offset {
            assert_eq!(env.walk(second, steps), env.holder_of(second, &name(text)));
        }
    }
}

#[test]
fn assign_changes_the_nearest_binding() {
    let (mut env, at) = Env::fresh_std_env();
    env.insert(at, &name("a"), value("outer"));
    let first = env.narrow(at);
    let second = env.narrow(first);
    assert_eq!(
        env.assign(second, &name("a"), value("changed")),
        Ok(value("outer"))
    );
    assert_eq!(
        env.get(at, &Identifier::fresh(name("a"), Some(0))),
        Some(value("changed"))
    );
    env.insert(first, &name("a"), value("middle"));
    assert_eq!(
        env.assign(second, &name("a"), value("nearer")),
        Ok(value("middle"))
    );
    assert_eq!(
        env.get(at, &Identifier::fresh(name("a"), Some(0))),
        Some(value("changed"))
    );
    assert_eq!(
        env.assign(second, &name("b"), value("none")),
        Err(EnvErr::MissingAsignee)
    );
    assert_eq!(env.offset(second, &name("b")), None);
}

#[test]
fn release_takes_frames_off_unless_captured() {
    let (mut env, at) = Env::fresh_std_env();
    let mark = env.size();
    let first = env.narrow(at);
    env.narrow(first);
    env.release(mark);
    assert_eq!(env.size(), mark);

    let kept = env.narrow(at);
    let dropped = env.narrow(kept);
    assert_eq!(dropped, kept + 1);
    env.capture(kept);
    env.release(mark);
    assert_eq!(env.size(), mark + 1);
    assert!(env.frames[kept].captured);

    let above = env.size();
    env.narrow(kept);
    env.release(mark);
    assert_eq!(env.size(), above);
    env.release(0);
    assert_eq!(env.size(), above);
}

#[test]
fn find_gives_the_first_place() {
    let (mut env, at) = Env::fresh_std_env();
    env.insert(at, &name("a"), ExprB::Nil);
    env.insert(at, &name("b"), ExprB::Nil);
    assert_eq!(env.frames[at].find(&name("a")), 0);
    assert_eq!(env.frames[at].find(&name("b")), 1);
    assert_eq!(env.frames[at].find(&name("c")), 2);
}

#[test]
fn a_frame_is_written_with_its_names() {
    let (mut env, at) = Env::fresh_std_env();
    assert_eq!(env.frames[at].display(), "Env @ 1\n");
    env.insert(at, &name("first"), ExprB::Nil);
    env.insert(at, &name("second"), ExprB::Nil);
    assert_eq!(env.frames[at].display(), "Env @ 1\n\tfirst\n\tsecond\n");
    assert_eq!(env.frames[0].display(), "Env @ 0\n");
}
