//! Command lines of the programs that render previews.
use vstd::prelude::*;
use vstd::string::StringExecFns;

use crate::text::{append_signed, decimal_int};

verus! {

/// One argument of a program: text, or a path as bytes.
#[derive(Debug, PartialEq, Eq)]
pub enum Argument {
    Text(String),
    Path(Vec<u8>),
}

/// An argument as a value.
pub ghost enum ArgumentView {
    Text(Seq<char>),
    Path(Seq<u8>),
}

impl View for Argument {
    type V = ArgumentView;

    open spec fn view(&self) -> ArgumentView {
        match self {
            Argument::Text(text) => ArgumentView::Text(text@),
            Argument::Path(path) => ArgumentView::Path(path@),
        }
    }
}

/// The views of a list of arguments.
pub open spec fn argument_views(arguments: Seq<Argument>) -> Seq<ArgumentView> {
    arguments.map_values(|argument: Argument| argument@)
}

/// Text arguments as values.
pub open spec fn texts(items: Seq<Seq<char>>) -> Seq<ArgumentView> {
    items.map_values(|item: Seq<char>| ArgumentView::Text(item))
}

/// A program with its arguments and the variables added to its environment.
#[derive(Debug, PartialEq, Eq)]
pub struct CommandLine {
    pub program: String,
    pub environment: Vec<(String, String)>,
    pub arguments: Vec<Argument>,
}

impl CommandLine {
    /// The arguments as values.
    pub open spec fn args(self) -> Seq<ArgumentView> {
        argument_views(self.arguments@)
    }

    /// The added variables as values.
    pub open spec fn env(self) -> Seq<(Seq<char>, Seq<char>)> {
        self.environment@.map_values(|pair: (String, String)| (pair.0@, pair.1@))
    }

    /// A program without arguments, in the environment as it is.
    pub fn new(program: &str) -> (command: Self)
        ensures
            command.program@ == program@,
            command.args() == Seq::<ArgumentView>::empty(),
            command.env() == Seq::<(Seq<char>, Seq<char>)>::empty(),
    {
        let command = CommandLine {
            program: program.to_owned(),
            environment: Vec::new(),
            arguments: Vec::new(),
        };
        assert(command.args() =~= Seq::<ArgumentView>::empty());
        assert(command.env() =~= Seq::<(Seq<char>, Seq<char>)>::empty());
        command
    }

    /// Adds a text argument.
    pub fn text(&mut self, text: &str)
        ensures
            final(self).program == old(self).program,
            final(self).env() == old(self).env(),
            final(self).args() == old(self).args().push(ArgumentView::Text(text@)),
    {
        let ghost before = self.args();
        self.arguments.push(Argument::Text(text.to_owned()));
        assert(self.args() =~= before.push(ArgumentView::Text(text@)));
    }

    /// Adds an owned text argument.
    pub fn string(&mut self, text: String)
        ensures
            final(self).program == old(self).program,
            final(self).env() == old(self).env(),
            final(self).args() == old(self).args().push(ArgumentView::Text(text@)),
    {
        let ghost before = self.args();
        let ghost value = text@;
        self.arguments.push(Argument::Text(text));
        assert(self.args() =~= before.push(ArgumentView::Text(value)));
    }

    /// Adds a path argument.
    pub fn path(&mut self, path: &[u8])
        ensures
            final(self).program == old(self).program,
            final(self).env() == old(self).env(),
            final(self).args() == old(self).args().push(ArgumentView::Path(path@)),
    {
        let ghost before = self.args();
        let mut bytes: Vec<u8> = Vec::new();
        bytes.extend_from_slice(path);
        assert(bytes@ =~= path@);
        self.arguments.push(Argument::Path(bytes));
        assert(self.args() =~= before.push(ArgumentView::Path(path@)));
    }

    /// Adds a variable to the environment.
    pub fn variable(&mut self, name: &str, value: &str)
        ensures
            final(self).program == old(self).program,
            final(self).args() == old(self).args(),
            final(self).env() == old(self).env().push((name@, value@)),
    {
        let ghost before = self.env();
        self.environment.push((name.to_owned(), value.to_owned()));
        assert(self.env() =~= before.push((name@, value@)));
    }
}

/// A square in ImageMagick's notation: width, `x`, height.
pub open spec fn square_geometry(size: int) -> Seq<char> {
    decimal_int(size) + seq!['x'] + decimal_int(size)
}

fn geometry_text(size: i32) -> (text: String)
    ensures
        text@ == square_geometry(size as int),
{
    let mut text = String::new();
    append_signed(&mut text, size as i64);
    proof {
        reveal_strlit("x");
        assert("x"@ =~= seq!['x']);
    }
    text.append("x");
    append_signed(&mut text, size as i64);
    assert(text@ =~= square_geometry(size as int));
    text
}

/// The two names under which ImageMagick is called, in the order in which they are tried.
pub open spec fn imagemagick_names() -> Seq<Seq<char>> {
    seq!["magick"@, "convert"@]
}

/// The ImageMagick commands that make a thumbnail of a picture, in the order in which
/// they are tried.
pub fn imagemagick_commands(path: &[u8], size: i32) -> (commands: Vec<CommandLine>)
    ensures
        commands@.len() == 2,
        forall|i: int|
            #![trigger commands@[i]]
            0 <= i < 2 ==> {
                &&& commands@[i].program@ == imagemagick_names()[i]
                &&& commands@[i].env().len() == 0
                &&& commands@[i].args() == seq![
                    ArgumentView::Path(path@),
                    ArgumentView::Text("-auto-orient"@),
                    ArgumentView::Text("-thumbnail"@),
                    ArgumentView::Text(square_geometry(size as int)),
                    ArgumentView::Text("png:-"@),
                ]
            },
{
    let mut commands: Vec<CommandLine> = Vec::new();
    commands.push(imagemagick_command("magick", path, size));
    commands.push(imagemagick_command("convert", path, size));
    commands
}

fn imagemagick_command(program: &str, path: &[u8], size: i32) -> (command: CommandLine)
    ensures
        command.program@ == program@,
        command.env().len() == 0,
        command.args() == seq![
            ArgumentView::Path(path@),
            ArgumentView::Text("-auto-orient"@),
            ArgumentView::Text("-thumbnail"@),
            ArgumentView::Text(square_geometry(size as int)),
            ArgumentView::Text("png:-"@),
        ],
{
    let mut command = CommandLine::new(program);
    command.path(path);
    command.text("-auto-orient");
    command.text("-thumbnail");
    command.string(geometry_text(size));
    command.text("png:-");
    assert(command.args() =~= seq![
        ArgumentView::Path(path@),
        ArgumentView::Text("-auto-orient"@),
        ArgumentView::Text("-thumbnail"@),
        ArgumentView::Text(square_geometry(size as int)),
        ArgumentView::Text("png:-"@),
    ]);
    command
}

/// The command that writes the preview embedded in a camera file to its output.
pub fn dcraw_command(path: &[u8]) -> (command: CommandLine)
    ensures
        command.program@ == "dcraw"@,
        command.env().len() == 0,
        command.args() == seq![
            ArgumentView::Text("-e"@),
            ArgumentView::Text("-c"@),
            ArgumentView::Path(path@),
        ],
{
    let mut command = CommandLine::new("dcraw");
    command.text("-e");
    command.text("-c");
    command.path(path);
    assert(command.args() =~= seq![
        ArgumentView::Text("-e"@),
        ArgumentView::Text("-c"@),
        ArgumentView::Path(path@),
    ]);
    command
}

/// The command that writes the preview embedded in a camera file next to the file.
pub fn simple_dcraw_command(staging: &[u8]) -> (command: CommandLine)
    ensures
        command.program@ == "simple_dcraw"@,
        command.env().len() == 0,
        command.args() == seq![ArgumentView::Text("-e"@), ArgumentView::Path(staging@)],
{
    let mut command = CommandLine::new("simple_dcraw");
    command.text("-e");
    command.path(staging);
    assert(command.args() =~= seq![ArgumentView::Text("-e"@), ArgumentView::Path(staging@)]);
    command
}

/// The command that makes a thumbnail of a video.
pub fn video_thumbnail_command(path: &[u8], size: i32) -> (command: CommandLine)
    ensures
        command.program@ == "ffmpegthumbnailer"@,
        command.env().len() == 0,
        command.args() == seq![
            ArgumentView::Text("-i"@),
            ArgumentView::Path(path@),
            ArgumentView::Text("-o"@),
            ArgumentView::Text("/dev/stdout"@),
            ArgumentView::Text("-s"@),
            ArgumentView::Text(decimal_int(size as int)),
            ArgumentView::Text("-q"@),
            ArgumentView::Text("8"@),
        ],
{
    let mut command = CommandLine::new("ffmpegthumbnailer");
    let mut edge = String::new();
    append_signed(&mut edge, size as i64);
    assert(edge@ =~= decimal_int(size as int));
    command.text("-i");
    command.path(path);
    command.text("-o");
    command.text("/dev/stdout");
    command.text("-s");
    command.string(edge);
    command.text("-q");
    command.text("8");
    assert(command.args() =~= seq![
        ArgumentView::Text("-i"@),
        ArgumentView::Path(path@),
        ArgumentView::Text("-o"@),
        ArgumentView::Text("/dev/stdout"@),
        ArgumentView::Text("-s"@),
        ArgumentView::Text(decimal_int(size as int)),
        ArgumentView::Text("-q"@),
        ArgumentView::Text("8"@),
    ]);
    command
}

/// A square is written as its edge twice, with an `x` between; ImageMagick goes by its new name
/// first, then by its old one.
pub proof fn imagemagick_is_spoken_to(size: int)
    ensures
        square_geometry(size) == decimal_int(size) + seq!['x'] + decimal_int(size),
        imagemagick_names().len() == 2,
        imagemagick_names()[0] == "magick"@,
        imagemagick_names()[1] == "convert"@,
{
}

/// The arguments of a command line are its own, one for one, and so are its variables.
pub proof fn arguments_are_kept(command: CommandLine, i: int)
    ensures
        command.args().len() == command.arguments@.len(),
        0 <= i < command.arguments@.len() ==> (match command.arguments@[i] {
            Argument::Text(text) => command.args()[i] == ArgumentView::Text(text@),
            Argument::Path(path) => command.args()[i] == ArgumentView::Path(path@),
        }),
        command.env().len() == command.environment@.len(),
        0 <= i < command.environment@.len() ==> command.env()[i].0 == command.environment@[i].0@
            && command.env()[i].1 == command.environment@[i].1@,
{
}

} // verus!
