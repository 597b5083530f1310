//! The `list-commands` command: the listing of the commands and what they do.

use vstd::prelude::*;
use crate::error::MigratoryError;
use crate::output::LineSink;

verus! {

/// The first line of the listing.
pub open spec fn listing_header() -> Seq<char> {
    "Below is a listing of all available Migratory commands and a brief\ndescription of what they do.\n"@
}

/// `n` spaces.
pub open spec fn spaces(n: nat) -> Seq<char> {
    Seq::new(n, |i: int| ' ')
}

/// A command's line: its name left-aligned in 15 columns (`{:<15}`), a
/// space, and what it does.
pub open spec fn command_line_of(name: Seq<char>, about: Seq<char>) -> Seq<char> {
    name + (if name.len() < 15 {
        spaces((15 - name.len()) as nat)
    } else {
        Seq::empty()
    }) + " "@ + about
}

/// Returns the line of the listing for one command.
pub fn command_line(name: &str, about: &str) -> (s: String)
    ensures
        s@ == command_line_of(name@, about@),
{
    let chars = crate::text::chars_of(name);
    let mut s = name.to_owned();
    let mut n: usize = chars.len();
    let ghost pad: Seq<char> = Seq::empty();
    while n < 15
        invariant
            chars@ == name@,
            chars@.len() <= n <= 15 || (n == chars@.len() && n >= 15),
            s@ == name@ + spaces((n - chars@.len()) as nat),
        decreases 15 - n,
    {
        crate::text::push_char(&mut s, ' ');
        assert(spaces((n + 1 - chars@.len()) as nat) =~= spaces((n - chars@.len()) as nat).push(' '));
        n = n + 1;
    }
    if chars.len() >= 15 {
        assert(spaces(0) =~= Seq::<char>::empty());
    }
    s.append(" ");
    s.append(about);
    s
}

/// The listing: the header, then one line per command, in order.
pub open spec fn listing_of(commands: Seq<(String, String)>) -> Seq<char>
    decreases commands.len(),
{
    if commands.len() == 0 {
        listing_header() + seq!['\n']
    } else {
        listing_of(commands.drop_last()) + command_line_of(
            commands.last().0@,
            commands.last().1@,
        ) + seq!['\n']
    }
}

/// Writes the listing of `commands` (name and description of each); it
/// fails only where the writer fails, and so succeeds on a writer that
/// accepts every line.
pub fn execute<W: LineSink>(commands: &[(String, String)], writer: &mut W) -> (r: Result<
    (),
    MigratoryError,
>)
    ensures
        r is Ok ==> final(writer).text() == old(writer).text() + listing_of(commands@),
        old(writer).accepts_all() ==> r is Ok,
{
    writer.write_line(
        "Below is a listing of all available Migratory commands and a brief\ndescription of what they do.\n",
    )?;
    let ghost start = old(writer).text();
    let mut i: usize = 0;
    while i < commands.len()
        invariant
            i <= commands.len(),
            writer.text() == start + listing_of(commands@.take(i as int)),
            old(writer).accepts_all() ==> writer.accepts_all(),
        decreases commands.len() - i,
    {
        assert(commands@.take(i + 1).drop_last() =~= commands@.take(i as int));
        let line = command_line(commands[i].0.as_str(), commands[i].1.as_str());
        writer.write_line(line.as_str())?;
        i = i + 1;
    }
    assert(commands@.take(commands.len() as int) =~= commands@);
    Ok(())
}

} // verus!
