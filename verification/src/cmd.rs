//! The commands that read and change the machine's default route, and what their output says.

use crate::text::{contains_text, parts, split_parts, split_words, text_contains, texts, words};
use vstd::prelude::*;

verus! {

/// A change of the default route.
pub enum RouteCommand {
    /// The default route goes away: the one of an interface, or the main one.
    Delete(Option<String>),
    /// The default route is to lead to a gateway, by an interface: as the main one or beside it.
    Add { gw: String, iface: String, primary: bool },
}

/// A change of the default route, as a value.
pub enum RouteCommandModel {
    Delete(Option<Seq<char>>),
    Add { gw: Seq<char>, iface: Seq<char>, primary: bool },
}

impl View for RouteCommand {
    type V = RouteCommandModel;

    open spec fn view(&self) -> RouteCommandModel {
        match *self {
            RouteCommand::Delete(Some(iface)) => RouteCommandModel::Delete(Some(iface@)),
            RouteCommand::Delete(None) => RouteCommandModel::Delete(None),
            RouteCommand::Add { gw, iface, primary } => RouteCommandModel::Add {
                gw: gw@,
                iface: iface@,
                primary,
            },
        }
    }
}

fn push_text(strings: &mut Vec<String>, text: &str)
    ensures
        texts(final(strings)@) == texts(old(strings)@).push(text@),
{
    strings.push(text.to_owned());
    proof {
        assert(texts(strings@) =~= texts(old(strings)@).push(text@));
    }
}

fn no_texts() -> (strings: Vec<String>)
    ensures
        texts(strings@) == Seq::<Seq<char>>::empty(),
{
    let strings: Vec<String> = Vec::new();
    proof {
        assert(texts(strings@) =~= Seq::<Seq<char>>::empty());
    }
    strings
}

/// The arguments of Linux's `ip` for a change of the default route.
pub open spec fn linux_args(command: RouteCommandModel) -> Seq<Seq<char>> {
    match command {
        RouteCommandModel::Delete(Some(_)) => seq![
            "route"@,
            "del"@,
            "default"@,
            "table"@,
            "default"@,
        ],
        RouteCommandModel::Delete(None) => seq!["route"@, "del"@, "default"@, "table"@, "main"@],
        RouteCommandModel::Add { gw, iface, primary } => if primary {
            seq!["route"@, "add"@, "default"@, "via"@, gw, "table"@, "main"@]
        } else {
            seq!["route"@, "add"@, "default"@, "via"@, gw, "dev"@, iface, "table"@, "default"@]
        },
    }
}

/// The arguments of the BSD `route` for a change of the default route.
pub open spec fn bsd_args(command: RouteCommandModel) -> Seq<Seq<char>> {
    match command {
        RouteCommandModel::Delete(Some(iface)) => seq![
            "delete"@,
            "-inet"@,
            "default"@,
            "-ifscope"@,
            iface,
        ],
        RouteCommandModel::Delete(None) => seq!["delete"@, "-inet"@, "default"@],
        RouteCommandModel::Add { gw, iface, primary } => if primary {
            seq!["add"@, "-inet"@, "default"@, gw]
        } else {
            seq!["add"@, "-inet"@, "default"@, gw, "-ifscope"@, iface]
        },
    }
}

/// The arguments of Linux's `ip` for a change of the default route.
pub fn linux_route_args(command: &RouteCommand) -> (args: Vec<String>)
    ensures
        texts(args@) == linux_args(command@),
{
    let mut args = no_texts();
    push_text(&mut args, "route");
    match command {
        RouteCommand::Delete(ifscope) => {
            push_text(&mut args, "del");
            push_text(&mut args, "default");
            push_text(&mut args, "table");
            match ifscope {
                Some(_) => push_text(&mut args, "default"),
                None => push_text(&mut args, "main"),
            }
        },
        RouteCommand::Add { gw, iface, primary } => {
            push_text(&mut args, "add");
            push_text(&mut args, "default");
            push_text(&mut args, "via");
            push_text(&mut args, gw.as_str());
            if *primary {
                push_text(&mut args, "table");
                push_text(&mut args, "main");
            } else {
                push_text(&mut args, "dev");
                push_text(&mut args, iface.as_str());
                push_text(&mut args, "table");
                push_text(&mut args, "default");
            }
        },
    }
    proof {
        assert(texts(args@) =~= linux_args(command@));
    }
    args
}

/// The arguments of the BSD `route` for a change of the default route.
pub fn bsd_route_args(command: &RouteCommand) -> (args: Vec<String>)
    ensures
        texts(args@) == bsd_args(command@),
{
    let mut args = no_texts();
    match command {
        RouteCommand::Delete(ifscope) => {
            push_text(&mut args, "delete");
            push_text(&mut args, "-inet");
            push_text(&mut args, "default");
            if let Some(iface) = ifscope {
                push_text(&mut args, "-ifscope");
                push_text(&mut args, iface.as_str());
            }
        },
        RouteCommand::Add { gw, iface, primary } => {
            push_text(&mut args, "add");
            push_text(&mut args, "-inet");
            push_text(&mut args, "default");
            push_text(&mut args, gw.as_str());
            if !*primary {
                push_text(&mut args, "-ifscope");
                push_text(&mut args, iface.as_str());
            }
        },
    }
    proof {
        assert(texts(args@) =~= bsd_args(command@));
    }
    args
}

/// The word at place `at` of the last line in which `mark` stands, and nothing where it stands in
/// none.
pub open spec fn marked_word(lines: Seq<Seq<char>>, mark: Seq<char>, at: int) -> Seq<char>
    decreases lines.len(),
{
    if lines.len() == 0 {
        Seq::empty()
    } else if text_contains(lines.last(), mark) {
        words(lines.last())[at]
    } else {
        marked_word(lines.drop_last(), mark, at)
    }
}

/// Whether every line in which `mark` stands has a word at place `at`.
pub open spec fn marked_lines_reach(lines: Seq<Seq<char>>, mark: Seq<char>, at: int) -> bool {
    forall|i: int|
        0 <= i < lines.len() && text_contains(#[trigger] lines[i], mark) ==> at < words(
            lines[i],
        ).len()
}

/// Whether every line in which `mark` stands has a word at place `at`.
pub fn lines_reach(lines: &Vec<String>, mark: &str, at: usize) -> (reach: bool)
    ensures
        reach == marked_lines_reach(texts(lines@), mark@, at as int),
{
    let mut i: usize = 0;
    while i < lines.len()
        invariant
            i <= lines@.len(),
            forall|j: int|
                0 <= j < i && text_contains(#[trigger] texts(lines@)[j], mark@) ==> at < words(
                    texts(lines@)[j],
                ).len(),
        decreases lines@.len() - i,
    {
        let line = lines[i].as_str();
        proof {
            assert(texts(lines@)[i as int] == line@);
        }
        if contains_text(line, mark) {
            let found = split_words(line);
            proof {
                assert(texts(found@).len() == found@.len());
            }
            if found.len() <= at {
                return false;
            }
        }
        i = i + 1;
    }
    true
}

/// The word at place `at` of the last line in which `mark` stands.
fn find_marked_word(lines: &Vec<String>, mark: &str, at: usize) -> (word: String)
    requires
        marked_lines_reach(texts(lines@), mark@, at as int),
    ensures
        word@ == marked_word(texts(lines@), mark@, at as int),
{
    let mut word = String::new();
    let mut i: usize = 0;
    proof {
        assert(texts(lines@).take(0) =~= Seq::empty());
        assert(word@ =~= Seq::empty());
    }
    while i < lines.len()
        invariant
            i <= lines@.len(),
            marked_lines_reach(texts(lines@), mark@, at as int),
            word@ == marked_word(texts(lines@).take(i as int), mark@, at as int),
        decreases lines@.len() - i,
    {
        let line = lines[i].as_str();
        proof {
            assert(texts(lines@)[i as int] == line@);
            let more = texts(lines@).take(i + 1);
            assert(more.last() == line@);
            assert(more.drop_last() =~= texts(lines@).take(i as int));
        }
        if contains_text(line, mark) {
            let found = split_words(line);
            proof {
                assert(texts(found@)[at as int] == found@[at as int]@);
            }
            word = found[at].clone();
        }
        i = i + 1;
    }
    proof {
        assert(texts(lines@).take(i as int) =~= texts(lines@));
    }
    word
}

/// The default gateway and its interface, from the lines of Linux's `ip route get`: the third and
/// the fifth word of the last line that leads somewhere.
pub fn linux_default_gw_iface(lines: &Vec<String>) -> (found: (String, String))
    requires
        marked_lines_reach(texts(lines@), "via"@, 4),
    ensures
        found.0@ == marked_word(texts(lines@), "via"@, 2),
        found.1@ == marked_word(texts(lines@), "via"@, 4),
{
    let gw = find_marked_word(lines, "via", 2);
    let iface = find_marked_word(lines, "via", 4);
    (gw, iface)
}

/// The address of an interface, from the lines of Linux's `ip addr show`: what stands before the
/// slash in the second word of the last line that gives one.
pub fn linux_if_addr(lines: &Vec<String>) -> (addr: String)
    requires
        marked_lines_reach(texts(lines@), "inet"@, 1),
    ensures
        addr@ == parts(marked_word(texts(lines@), "inet"@, 1), '/')[0],
{
    let net = find_marked_word(lines, "inet", 1);
    let found = split_parts(net.as_str(), '/');
    proof {
        lemma_parts_nonempty(net@, '/');
        assert(texts(found@)[0] == found@[0]@);
    }
    found[0].clone()
}

proof fn lemma_parts_nonempty(text: Seq<char>, separator: char)
    ensures
        parts(text, separator).len() > 0,
    decreases text.len(),
{
    if text.len() > 0 {
        lemma_parts_nonempty(text.drop_first(), separator);
    }
}

/// The default gateway and its interface, from the lines of the BSD `route get`: the second words
/// of the last lines that name them.
pub fn bsd_default_gw_iface(lines: &Vec<String>) -> (found: (String, String))
    requires
        marked_lines_reach(texts(lines@), "gateway"@, 1),
        marked_lines_reach(texts(lines@), "interface"@, 1),
    ensures
        found.0@ == marked_word(texts(lines@), "gateway"@, 1),
        found.1@ == marked_word(texts(lines@), "interface"@, 1),
{
    let gw = find_marked_word(lines, "gateway", 1);
    let iface = find_marked_word(lines, "interface", 1);
    (gw, iface)
}

/// The word that is found is that of the last line in which the mark stands: no line behind it has
/// the mark. Where no line has it nothing is found.
pub proof fn law_the_last_marked_line_counts(lines: Seq<Seq<char>>, mark: Seq<char>, at: int)
    ensures
        (forall|i: int| 0 <= i < lines.len() ==> !text_contains(#[trigger] lines[i], mark))
            ==> marked_word(lines, mark, at) == Seq::<char>::empty(),
        (exists|i: int| 0 <= i < lines.len() && text_contains(#[trigger] lines[i], mark))
            ==> exists|i: int|
            {
                &&& 0 <= i < lines.len()
                &&& text_contains(#[trigger] lines[i], mark)
                &&& marked_word(lines, mark, at) == words(lines[i])[at]
                &&& forall|j: int| i < j < lines.len() ==> !text_contains(#[trigger] lines[j], mark)
            },
    decreases lines.len(),
{
    if lines.len() > 0 {
        let front = lines.drop_last();
        let last = lines.len() - 1;
        if text_contains(lines.last(), mark) {
            assert(text_contains(lines[last], mark));
        } else {
            law_the_last_marked_line_counts(front, mark, at);
            if exists|i: int| 0 <= i < lines.len() && text_contains(#[trigger] lines[i], mark) {
                let k = choose|i: int|
                    0 <= i < lines.len() && text_contains(#[trigger] lines[i], mark);
                assert(front[k] == lines[k]);
                let i = choose|i: int|
                    {
                        &&& 0 <= i < front.len()
                        &&& text_contains(#[trigger] front[i], mark)
                        &&& marked_word(front, mark, at) == words(front[i])[at]
                        &&& forall|j: int|
                            i < j < front.len() ==> !text_contains(#[trigger] front[j], mark)
                    };
                assert(lines[i] == front[i]);
                assert forall|j: int| i < j < lines.len() implies !text_contains(
                    #[trigger] lines[j],
                    mark,
                ) by {
                    if j < last {
                        assert(front[j] == lines[j]);
                    }
                }
            } else {
                assert forall|i: int| 0 <= i < front.len() implies !text_contains(
                    #[trigger] front[i],
                    mark,
                ) by {
                    assert(front[i] == lines[i]);
                }
            }
        }
    }
}

/// A change of the default route names the gateway that it leads to, and where it is beside the
/// main one the interface. On Linux what is main is in the table `main` and what is beside it in
/// the table `default`, to be deleted from where it was added.
pub proof fn law_linux_routes_go_to_their_table(
    gw: Seq<char>,
    iface: Seq<char>,
    primary: bool,
)
    ensures
        ({
            let table = if primary {
                "main"@
            } else {
                "default"@
            };
            let add = linux_args(RouteCommandModel::Add { gw, iface, primary });
            let delete = linux_args(
                RouteCommandModel::Delete(
                    if primary {
                        None
                    } else {
                        Some(iface)
                    },
                ),
            );
            &&& add.take(5) == seq!["route"@, "add"@, "default"@, "via"@, gw]
            &&& delete.take(3) == seq!["route"@, "del"@, "default"@]
            &&& delete.len() == 5
            &&& add.len() == (if primary {
                7nat
            } else {
                9
            })
            &&& !primary ==> add[5] == "dev"@ && add[6] == iface
            &&& add[add.len() - 2] == "table"@ && add.last() == table
            &&& delete[3] == "table"@ && delete.last() == table
        }),
{
    let add = linux_args(RouteCommandModel::Add { gw, iface, primary });
    let delete = linux_args(
        RouteCommandModel::Delete(
            if primary {
                None
            } else {
                Some(iface)
            },
        ),
    );
    assert(add.take(5) =~= seq!["route"@, "add"@, "default"@, "via"@, gw]);
    assert(delete.take(3) =~= seq!["route"@, "del"@, "default"@]);
}

/// On BSD a change of the default route that is beside the main one is bound to its interface, and
/// one of the main route is not.
pub proof fn law_bsd_routes_are_bound_to_their_interface(
    gw: Seq<char>,
    iface: Seq<char>,
    primary: bool,
)
    ensures
        ({
            let scope = if primary {
                Seq::empty()
            } else {
                seq!["-ifscope"@, iface]
            };
            let add = bsd_args(RouteCommandModel::Add { gw, iface, primary });
            let delete = bsd_args(
                RouteCommandModel::Delete(
                    if primary {
                        None
                    } else {
                        Some(iface)
                    },
                ),
            );
            &&& add.take(4) == seq!["add"@, "-inet"@, "default"@, gw]
            &&& add.skip(4) == scope
            &&& delete.take(3) == seq!["delete"@, "-inet"@, "default"@]
            &&& delete.skip(3) == scope
        }),
{
    let scope = if primary {
        Seq::empty()
    } else {
        seq!["-ifscope"@, iface]
    };
    let add = bsd_args(RouteCommandModel::Add { gw, iface, primary });
    let delete = bsd_args(
        RouteCommandModel::Delete(
            if primary {
                None
            } else {
                Some(iface)
            },
        ),
    );
    assert(add.take(4) =~= seq!["add"@, "-inet"@, "default"@, gw]);
    assert(add.skip(4) =~= scope);
    assert(delete.take(3) =~= seq!["delete"@, "-inet"@, "default"@]);
    assert(delete.skip(3) =~= scope);
}

/// Lines can be read exactly where each of those with the mark has as many words as it takes; a
/// line without the mark is of no account.
pub proof fn law_only_marked_lines_have_to_reach(
    lines: Seq<Seq<char>>,
    line: Seq<char>,
    mark: Seq<char>,
    at: int,
)
    ensures
        marked_lines_reach(Seq::empty(), mark, at),
        marked_lines_reach(lines.push(line), mark, at) <==> marked_lines_reach(lines, mark, at) && (
        text_contains(line, mark) ==> at < words(line).len()),
{
    let more = lines.push(line);
    assert(more[lines.len() as int] == line);
    assert forall|i: int| 0 <= i < lines.len() implies #[trigger] lines[i] == more[i] by {}
    if marked_lines_reach(more, mark, at) {
        assert forall|i: int|
            0 <= i < lines.len() && text_contains(#[trigger] lines[i], mark) implies at < words(
            lines[i],
        ).len() by {
            assert(more[i] == lines[i]);
        }
    }
}

} // verus!
