//! The command line, and the list of domains that it gives.

use crate::auth::AuthMode;
use crate::text;
use crate::text::{split, trim};
use std::path::PathBuf;
use vstd::prelude::*;
use vstd::string::*;

verus! {

#[verifier::external_type_specification]
#[verifier::external_body]
pub struct ExPathBuf(std::path::PathBuf);

/// What the program is told to do.
pub enum Commands {
    /// Run server
    Run(Box<BootArgs>),
    /// Manage the systemd service
    Systemd(SystemdCommand),
    /// Modify server installation
    Oneself { command: Oneself },
}

/// The kinds of server.
pub enum Proxy {
    /// Http server
    Http { auth: AuthMode },
    /// Https server
    Https { auth: AuthMode, tls_cert: Option<PathBuf>, tls_key: Option<PathBuf> },
    /// Socks5 server
    Socks5 { auth: AuthMode },
    /// HTTP/3 CONNECT-UDP (MASQUE) proxy
    Quic { auth: AuthMode, tls_cert: Option<PathBuf>, tls_key: Option<PathBuf> },
    /// Auto detect server (SOCKS5, HTTP, HTTPS)
    Auto { auth: AuthMode, tls_cert: Option<PathBuf>, tls_key: Option<PathBuf> },
}

/// How a server is to run. Addresses, networks and the log level stand as they were written.
pub struct BootArgs {
    pub log: String,
    pub bind: String,
    pub concurrent: u32,
    pub workers: Option<usize>,
    pub cidr: Option<String>,
    pub cidr_range: Option<u8>,
    pub fallback: Option<String>,
    pub domains: Option<Vec<String>>,
    pub domain_file: Option<PathBuf>,
    /// In seconds.
    pub connect_timeout: u64,
    /// In seconds.
    pub tcp_user_timeout: Option<u64>,
    pub reuseaddr: Option<bool>,
    pub proxy: Proxy,
}

/// What to do about the installation.
#[derive(Clone, Copy, Debug, PartialEq, Eq, Structural)]
pub enum Oneself {
    /// Download and install updates to the proxy server
    Update,
    /// Uninstall proxy server
    Uninstall,
}

/// What to do about the systemd service.
pub enum SystemdCommand {
    /// Install, enable, and start the systemd service
    Start(Box<BootArgs>),
    /// Update and restart the systemd service
    Restart(Box<BootArgs>),
    /// Stop the systemd service
    Stop,
    /// Show recent systemd logs and follow new entries
    Logs,
    /// Show the systemd service status
    Status,
}

/// What each text of a list says.
pub open spec fn texts(list: Seq<String>) -> Seq<Seq<char>> {
    Seq::new(list.len(), |i: int| list[i]@)
}

/// The domains on one line of a domain file: its entries between commas, without the white
/// space around them; none on an empty line or a comment.
pub open spec fn line_domains(line: Seq<char>) -> Seq<Seq<char>> {
    let content = text::trimmed(line);
    if content.len() == 0 || content[0] == '#' {
        Seq::empty()
    } else {
        text::split_all(content, ',').map_values(|entry: Seq<char>| text::trimmed(entry))
    }
}

/// The domains on the lines of a domain file.
pub open spec fn lines_domains(lines: Seq<Seq<char>>) -> Seq<Seq<char>>
    decreases lines.len(),
{
    if lines.len() == 0 {
        Seq::empty()
    } else {
        lines_domains(lines.drop_last()) + line_domains(lines.last())
    }
}

/// The domains in a domain file.
pub open spec fn file_domains(contents: Seq<char>) -> Seq<Seq<char>> {
    lines_domains(text::split_all(contents, '\n'))
}

impl BootArgs {
    /// The domains that were listed, those of the command line before those of the domain
    /// file, if that could be read.
    pub open spec fn all_domains(&self, contents: Option<Seq<char>>) -> Seq<Seq<char>> {
        (match self.domains {
            None => Seq::empty(),
            Some(domains) => texts(domains@),
        }) + (match contents {
            None => Seq::empty(),
            Some(contents) => file_domains(contents),
        })
    }

    /// The domains that were listed; none if there are none. `contents` is what the domain
    /// file holds, if there is one and it could be read.
    pub fn domain_list(&self, contents: Option<&str>) -> (res: Option<Vec<String>>)
        ensures
            ({
                let listed = self.all_domains(
                    match contents {
                        None => None,
                        Some(contents) => Some(contents@),
                    },
                );
                &&& res is Some <==> listed.len() > 0
                &&& res matches Some(domains) ==> texts(domains@) == listed
            }),
    {
        let mut domains: Vec<String> = Vec::new();
        if let Some(given) = &self.domains {
            let mut index: usize = 0;
            while index < given.len()
                invariant
                    index <= given@.len(),
                    texts(domains@) == texts(given@).take(index as int),
                decreases given@.len() - index,
            {
                let ghost before = domains@;
                domains.push(given[index].clone());
                assert(texts(domains@) =~= texts(before).push(given@[index as int]@));
                assert(texts(given@).take(index + 1) =~= texts(given@).take(index as int).push(
                    given@[index as int]@,
                ));
                index = index + 1;
            }
            assert(texts(given@).take(index as int) =~= texts(given@));
        }
        let ghost given = texts(domains@);
        if let Some(contents) = contents {
            let lines = split(contents, '\n');
            let ghost all = text::split_all(contents@, '\n');
            let mut index: usize = 0;
            assert(lines_domains(all.take(0)) =~= Seq::<Seq<char>>::empty());
            assert(texts(domains@) =~= given + lines_domains(all.take(0)));
            while index < lines.len()
                invariant
                    index <= lines@.len(),
                    lines@.len() == all.len(),
                    forall|i: int| 0 <= i < lines@.len() ==> (#[trigger] lines@[i])@ == all[i],
                    texts(domains@) == given + lines_domains(all.take(index as int)),
                decreases lines@.len() - index,
            {
                let ghost before = texts(domains@);
                add_line(&mut domains, lines[index]);
                proof {
                    assert(all.take(index + 1).drop_last() =~= all.take(index as int));
                    assert(all.take(index + 1).last() == lines@[index as int]@);
                    assert(given + lines_domains(all.take(index + 1)) =~= before + line_domains(
                        all[index as int],
                    ));
                }
                index = index + 1;
            }
            assert(all.take(index as int) =~= all);
        }
        assert(texts(domains@) =~= self.all_domains(
            match contents {
                None => None,
                Some(contents) => Some(contents@),
            },
        ));
        if domains.len() == 0 {
            None
        } else {
            Some(domains)
        }
    }
}

/// Adds the domains on one line of a domain file.
fn add_line(domains: &mut Vec<String>, line: &str)
    ensures
        texts(final(domains)@) == texts(old(domains)@) + line_domains(line@),
{
    let content = trim(line);
    if content.unicode_len() == 0 || content.get_char(0) == '#' {
        assert(texts(domains@) + line_domains(line@) =~= texts(domains@));
        return;
    }
    let entries = split(content, ',');
    let ghost all = line_domains(line@);
    let ghost given = texts(domains@);
    let mut index: usize = 0;
    assert(given + all.take(0) =~= given);
    while index < entries.len()
        invariant
            index <= entries@.len(),
            entries@.len() == all.len(),
            forall|i: int|
                0 <= i < entries@.len() ==> text::trimmed((#[trigger] entries@[i])@) == all[i],
            texts(domains@) == given + all.take(index as int),
        decreases entries@.len() - index,
    {
        let ghost before = domains@;
        domains.push(trim(entries[index]).to_owned());
        assert(texts(domains@) =~= texts(before).push(all[index as int]));
        assert(given + all.take(index + 1) =~= (given + all.take(index as int)).push(
            all[index as int],
        ));
        index = index + 1;
    }
    assert(all.take(index as int) =~= all);
}

/// A domain file may end its lines with a carriage return before the newline or not.
pub proof fn carriage_returns_make_no_difference(line: Seq<char>)
    ensures
        line_domains(line.push('\r')) == line_domains(line),
{
    text::trimming_ignores_the_end(line, '\r');
}

/// A line that starts with `#`, white space aside, lists nothing.
pub proof fn comments_list_nothing(line: Seq<char>)
    requires
        text::trimmed(line).len() > 0,
        text::trimmed(line)[0] == '#',
    ensures
        line_domains(line) == Seq::<Seq<char>>::empty(),
{
}

/// A line behind a file adds its domains to those of the file, and a file of one line lists
/// those of the line.
pub proof fn lines_add_their_domains(contents: Seq<char>, line: Seq<char>)
    requires
        !line.contains('\n'),
    ensures
        file_domains(line) == line_domains(line),
        file_domains(contents + seq!['\n'] + line) == file_domains(contents) + line_domains(line),
{
    text::separators_end_pieces(contents, line, '\n');
    let lines = text::split_all(contents, '\n');
    assert(lines.push(line).drop_last() =~= lines);
    assert(seq![line].drop_last() =~= Seq::<Seq<char>>::empty());
    assert(lines_domains(seq![line].drop_last()) + line_domains(line) =~= line_domains(line)) by {
        assert(lines_domains(Seq::empty()) =~= Seq::<Seq<char>>::empty());
    }
}

/// A line lists its entries between commas, every one of them and in order, each without the
/// white space around it, whatever white space is around the line; but a line that is empty or
/// starts with `#` lists nothing.
pub proof fn lines_list_their_entries(
    left: Seq<char>,
    entries: Seq<Seq<char>>,
    right: Seq<char>,
)
    requires
        text::all_white_space(left),
        text::all_white_space(right),
        entries.len() > 0,
        forall|i: int| 0 <= i < entries.len() ==> !(#[trigger] entries[i]).contains(','),
        text::is_bare(text::joined_with(entries, ',')),
    ensures
        ({
            let content = text::joined_with(entries, ',');
            let listed = line_domains(left + content + right);
            if content.len() == 0 || content[0] == '#' {
                listed.len() == 0
            } else {
                &&& listed.len() == entries.len()
                &&& forall|i: int|
                    0 <= i < entries.len() ==> #[trigger] listed[i] == text::trimmed(entries[i])
            }
        }),
{
    text::trimming_keeps_the_middle(left, text::joined_with(entries, ','), right);
    text::splitting_undoes_joining(entries, ',');
}

/// What is listed: the domains that were given, as they are, and then those of the file; no
/// list where there are none.
pub proof fn given_domains_come_first(
    args: BootArgs,
    contents: Option<Seq<char>>,
    res: Option<Vec<String>>,
)
    requires
        res is Some <==> args.all_domains(contents).len() > 0,
        res matches Some(domains) ==> texts(domains@) == args.all_domains(contents),
    ensures
        ({
            let given: Seq<String> = match args.domains {
                None => Seq::empty(),
                Some(domains) => domains@,
            };
            let filed: Seq<Seq<char>> = match contents {
                None => Seq::empty(),
                Some(contents) => file_domains(contents),
            };
            &&& res is None <==> given.len() + filed.len() == 0
            &&& res matches Some(list) ==> {
                &&& list@.len() == given.len() + filed.len()
                &&& forall|i: int| 0 <= i < given.len() ==> (#[trigger] list@[i])@ == given[i]@
                &&& forall|i: int|
                    given.len() <= i < list@.len() ==> (#[trigger] list@[i])@ == filed[i
                        - given.len()]
            }
        }),
{
    if let Some(list) = res {
        let all = args.all_domains(contents);
        assert forall|i: int| 0 <= i < list@.len() implies (#[trigger] list@[i])@ == all[i] by {
            assert(texts(list@)[i] == all[i]);
        }
        assert(texts(list@).len() == list@.len());
    }
}

} // verus!
