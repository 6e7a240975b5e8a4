use lanoma::compile::{CompilableObject, CompilationEnvironment, CompileResult};
use lanoma::note::Note;
use lanoma::subjects::Subject;

fn names(objects: &Vec<CompilableObject>) -> Vec<String> {
    objects.iter().map(|o| o.name()).collect()
}

#[test]
fn a_new_environment_has_defaults() {
    let env = CompilationEnvironment::new("build");
    assert_eq!(env.path, "build");
    assert!(env.compilables.is_empty());
    assert_eq!(env.command, "");
    assert_eq!(env.thread_count, 1);

    let env: CompilationEnvironment = Default::default();
    assert_eq!(env.path, "");
}

#[test]
fn compilables_are_held_in_reverse() {
    let mut env = CompilationEnvironment::new("build");
    env.compilables(vec![
        CompilableObject::Note(Note::new("One")),
        CompilableObject::Note(Note::new("Two")),
        CompilableObject::Note(Note::new("Three")),
    ])
    .command("pdflatex {{note}}")
    .thread_count(4);
    assert_eq!(names(&env.compilables), vec!["Three", "Two", "One"]);
    assert_eq!(env.command, "pdflatex {{note}}");
    assert_eq!(env.thread_count, 4);
}

#[test]
fn commands_render_the_file_name() {
    let mut env = CompilationEnvironment::new("build");
    env.compilables(vec![
        CompilableObject::Note(Note::new("Taylor Series")),
        CompilableObject::MasterNote(Subject::from("Calculus").create_master_note()),
    ])
    .command("latexmk -pdf {{note}}");
    let commands = env.commands();
    assert_eq!(
        commands[0],
        Some(("latexmk".to_string(), vec!["-pdf".to_string(), "_master.tex".to_string()]))
    );
    assert_eq!(
        commands[1],
        Some(("latexmk".to_string(), vec!["-pdf".to_string(), "taylor-series.tex".to_string()]))
    );
}

#[test]
fn a_command_that_renders_no_word_has_no_program() {
    let note = CompilableObject::Note(Note::new("A"));
    assert_eq!(note.to_command("   "), None);
    assert_eq!(note.to_command("{{#if}}"), None);
    assert_eq!(note.to_command("tectonic {{note}}"), Some(("tectonic".to_string(), vec!["a.tex".to_string()])));
}

#[test]
fn a_master_note_compiles_its_fixed_file() {
    let master = CompilableObject::MasterNote(Subject::from("Algebra").create_master_note());
    assert_eq!(
        master.to_command("pdflatex {{note}}"),
        Some(("pdflatex".to_string(), vec!["_master.tex".to_string()]))
    );
}

#[test]
fn finish_sorts_by_outcome_in_order() {
    let mut env = CompilationEnvironment::new("build");
    env.compilables(vec![
        CompilableObject::Note(Note::new("A")),
        CompilableObject::Note(Note::new("B")),
        CompilableObject::Note(Note::new("C")),
        CompilableObject::Note(Note::new("D")),
    ]);
    let result = env.finish(&vec![true, false, false, true]);
    assert_eq!(result.path, "build");
    assert_eq!(names(&result.compiled), vec!["D", "A"]);
    assert_eq!(names(&result.failed), vec!["C", "B"]);
}

#[test]
fn sum_gathers_results_in_order() {
    let mut first = CompileResult::new("one");
    first.compiled.push(CompilableObject::Note(Note::new("A")));
    let mut second = CompileResult::new("two");
    second.compiled.push(CompilableObject::Note(Note::new("B")));
    second.failed.push(CompilableObject::Note(Note::new("C")));
    let total = CompileResult::sum(vec![first, second]);
    assert_eq!(total.path, "two");
    assert_eq!(names(&total.compiled), vec!["A", "B"]);
    assert_eq!(names(&total.failed), vec!["C"]);

    let empty = CompileResult::sum(vec![]);
    assert_eq!(empty.path, "");
    assert!(empty.compiled.is_empty() && empty.failed.is_empty());
}

#[test]
fn a_master_note_is_named_after_its_subject() {
    let master = CompilableObject::MasterNote(Subject::from("Math/Calculus I").create_master_note());
    assert_eq!(master.name(), "Calculus I");
}
