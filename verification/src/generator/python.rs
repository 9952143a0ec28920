//! Projects described by a Python setup script.

use crate::error::GenerateError;
use crate::generator::{Facts, Generator};
use crate::name_map::NameMap;
use crate::snap::{App, AppView, Part, PartView};
use crate::text::{clone_text, trim, trimmed};
use crate::tree::{at_root, present, root_path, SourceTree, TreeView};
use vstd::prelude::*;

verus! {

/// What [`SetupAnswers`] say.
pub struct SetupAnswersView {
    pub name: Option<Seq<char>>,
    pub version: Option<Seq<char>>,
    pub description: Option<Seq<char>>,
}

/// What the setup script printed when the interpreter ran it with the query
/// for the name, for the version and for the description; `None` for a query
/// that could not be run or whose output is no text.
#[derive(Debug, PartialEq, Clone)]
pub struct SetupAnswers {
    pub name: Option<String>,
    pub version: Option<String>,
    pub description: Option<String>,
}

impl View for SetupAnswers {
    type V = SetupAnswersView;

    open spec fn view(&self) -> SetupAnswersView {
        SetupAnswersView {
            name: self.name.deep_view(),
            version: self.version.deep_view(),
            description: self.description.deep_view(),
        }
    }
}

/// What an [`Interpreter`] says.
pub enum InterpreterView {
    Unavailable,
    Answered(SetupAnswersView),
}

/// What came of running the interpreter on the setup script of a tree.
#[derive(Debug, PartialEq, Clone)]
pub enum Interpreter {
    /// The interpreter was not run, or could not be.
    Unavailable,
    /// The interpreter is there, and the queries were put to the script.
    Answered(SetupAnswers),
}

impl View for Interpreter {
    type V = InterpreterView;

    open spec fn view(&self) -> InterpreterView {
        match self {
            Interpreter::Unavailable => InterpreterView::Unavailable,
            Interpreter::Answered(answers) => InterpreterView::Answered(answers@),
        }
    }
}

/// The field that an output gives: the output without the white space at
/// its beginning and at its end.
pub open spec fn field_of(output: Option<Seq<char>>) -> Option<Seq<char>> {
    match output {
        Some(text) => Some(trimmed(text)),
        None => None,
    }
}

/// The field that an output gives.
pub fn read_field(output: &Option<String>) -> (field: Option<String>)
    ensures
        field.deep_view() == field_of(output.deep_view()),
{
    match output {
        Some(text) => Some(trim(text.as_str())),
        None => None,
    }
}

/// What a setup script says of its project.
#[derive(Debug, PartialEq, Clone, Default)]
pub struct SetupPy {
    name: Option<String>,
    version: Option<String>,
    description: Option<String>,
}

impl View for SetupPy {
    type V = SetupAnswersView;

    closed spec fn view(&self) -> SetupAnswersView {
        SetupAnswersView {
            name: self.name.deep_view(),
            version: self.version.deep_view(),
            description: self.description.deep_view(),
        }
    }
}

/// The fields that the answers give.
pub open spec fn fields_of(answers: SetupAnswersView) -> SetupAnswersView {
    SetupAnswersView {
        name: field_of(answers.name),
        version: field_of(answers.version),
        description: field_of(answers.description),
    }
}

impl SetupPy {
    /// What the script says, by its answers.
    pub fn new(answers: &SetupAnswers) -> (setup_py: SetupPy)
        ensures
            setup_py@ == fields_of(answers@),
    {
        SetupPy {
            name: read_field(&answers.name),
            version: read_field(&answers.version),
            description: read_field(&answers.description),
        }
    }
}

/// The part of a Python project.
pub open spec fn python_part() -> PartView {
    PartView {
        plugin: "python"@,
        source: "."@,
        build_packages: None,
        stage_packages: None,
        go_import_path: None,
        python_version: Some("python3"@),
    }
}

/// The app of a Python project, whose command is yet to be filled in.
pub open spec fn python_app() -> AppView {
    AppView { command: "TODO"@, plugs: None }
}

/// The answers for the Python project named `source_name`, whose setup
/// script says `setup_py`: name, version and summary as the script has
/// them, one part and one app under the name of the project.
pub open spec fn python_facts(source_name: Seq<char>, setup_py: SetupAnswersView) -> Facts {
    Facts {
        name: Ok(setup_py.name),
        version: Ok(setup_py.version),
        summary: Ok(setup_py.description),
        description: Ok(None),
        license: Ok(None),
        parts: Ok(Map::<Seq<char>, PartView>::empty().insert(source_name, python_part())),
        apps: Ok(Map::<Seq<char>, AppView>::empty().insert(source_name, python_app())),
    }
}

/// The tree has a setup script at its root.
pub open spec fn is_python(tree: TreeView) -> bool {
    present(tree, at_root("setup.py"@))
}

/// What providing for a Python project comes to: a failure where the
/// interpreter is not to be had, and else the answers of the generator.
pub open spec fn python_provided(source_name: Seq<char>, interpreter: InterpreterView) -> Result<
    Facts,
    GenerateError,
> {
    match interpreter {
        InterpreterView::Unavailable => Err(GenerateError::SubprocessError),
        InterpreterView::Answered(answers) => Ok(python_facts(source_name, fields_of(answers))),
    }
}

/// What makes a tree a Python project.
pub struct PythonProvider {}

/// What is known of a Python project.
pub struct PythonGenerator {
    setup_py: SetupPy,
    source_name: String,
}

impl PythonProvider {
    /// Whether the tree is a Python project.
    pub fn can_provide(tree: &SourceTree) -> (r: bool)
        ensures
            r == is_python(tree@),
    {
        tree.has(&root_path("setup.py"))
    }

    /// The generator for the Python project named `source_name`, by what
    /// came of running the interpreter on its setup script.
    pub fn provide(source_name: &str, interpreter: &Interpreter) -> (r: Result<
        PythonGenerator,
        GenerateError,
    >)
        ensures
            match r {
                Ok(generator) => python_provided(source_name@, interpreter@) == Ok::<
                    Facts,
                    GenerateError,
                >(generator.facts()),
                Err(e) => python_provided(source_name@, interpreter@) == Err::<Facts, GenerateError>(e),
            },
    {
        match interpreter {
            Interpreter::Unavailable => Err(GenerateError::SubprocessError),
            Interpreter::Answered(answers) => Ok(
                PythonGenerator { setup_py: SetupPy::new(answers), source_name: source_name.to_owned() },
            ),
        }
    }
}

impl Generator for PythonGenerator {
    closed spec fn facts(&self) -> Facts {
        python_facts(self.source_name@, self.setup_py@)
    }

    fn name(&self) -> (r: Result<Option<String>, GenerateError>) {
        Ok(clone_text(&self.setup_py.name))
    }

    fn version(&self) -> (r: Result<Option<String>, GenerateError>) {
        Ok(clone_text(&self.setup_py.version))
    }

    fn summary(&self) -> (r: Result<Option<String>, GenerateError>) {
        Ok(clone_text(&self.setup_py.description))
    }

    fn description(&self) -> (r: Result<Option<String>, GenerateError>) {
        Ok(None)
    }

    fn license(&self) -> (r: Result<Option<String>, GenerateError>) {
        Ok(None)
    }

    fn parts(&self) -> (r: Result<NameMap<Part>, GenerateError>) {
        let mut parts = NameMap::new();
        parts.insert(
            self.source_name.clone(),
            Part {
                plugin: "python".to_owned(),
                source: ".".to_owned(),
                build_packages: None,
                stage_packages: None,
                go_import_path: None,
                python_version: Some("python3".to_owned()),
            },
        );
        Ok(parts)
    }

    fn apps(&self) -> (r: Result<NameMap<App>, GenerateError>) {
        let mut apps = NameMap::new();
        apps.insert(self.source_name.clone(), App { command: "TODO".to_owned(), plugs: None });
        Ok(apps)
    }
}

} // verus!
