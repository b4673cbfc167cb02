use crate::error::{Error, ErrorKind};
use crate::reader::{le_u16, spec_i32, spec_take, spec_u32, spec_u8, truncated_at, Reader};
use crate::session::{
    commands_view, Command, CommandView, Content, ContentView, SNSS, SessionView, Tab, TabView,
};
use crate::text::{
    read_bytes_field, read_utf16_field, read_utf8_field, spec_bytes_field, spec_utf16_field,
    spec_utf8_field,
};
use crate::transition::PageTransition;
use vstd::prelude::*;

verus! {

#[verifier::opaque]
/// The tab record whose fields begin at position `i` of `b`, the payload of
/// a record whose first byte stands at absolute offset `base`.
pub open spec fn spec_tab(b: Seq<u8>, i: int, base: int) -> Result<TabView, Error> {
    match spec_take(b, i, base, 4) {
        Err(e) => Err(e),
        Ok((_, q0)) => match spec_i32(b, q0, base) {
            Err(e) => Err(e),
            Ok((id, q1)) => match spec_i32(b, q1, base) {
                Err(e) => Err(e),
                Ok((index, q2)) => match spec_utf8_field(b, q2, base) {
                    Err(e) => Err(e),
                    Ok((url, q3)) => match spec_utf16_field(b, q3, base) {
                        Err(e) => Err(e),
                        Ok((title, q4)) => match spec_bytes_field(b, q4, base) {
                            Err(e) => Err(e),
                            Ok((state, q5)) => match spec_u32(b, q5, base) {
                                Err(e) => Err(e),
                                Ok((transition, q6)) => match spec_i32(b, q6, base) {
                                    Err(e) => Err(e),
                                    Ok((post, q7)) => match spec_utf8_field(b, q7, base) {
                                        Err(e) => Err(e),
                                        Ok((referrer_url, q8)) => match spec_i32(b, q8, base) {
                                            Err(e) => Err(e),
                                            Ok((reference_policy, q9)) => match spec_utf8_field(b, q9, base) {
                                                Err(e) => Err(e),
                                                Ok((original_request_url, q10)) => match spec_i32(b, q10, base) {
                                                    Err(e) => Err(e),
                                                    Ok((user_agent, _)) => Ok(
                                                        TabView {
                                                            id,
                                                            index,
                                                            url,
                                                            title,
                                                            state,
                                                            transition,
                                                            post: post != 0,
                                                            referrer_url,
                                                            reference_policy,
                                                            original_request_url,
                                                            user_agent: user_agent != 0,
                                                        },
                                                    ),
                                                },
                                            },
                                        },
                                    },
                                },
                            },
                        },
                    },
                },
            },
        },
    }
}

/// Whether a record tag marks a tab navigation entry.
pub open spec fn is_tab_tag(id: u8) -> bool {
    id == 1 || id == 6
}

/// The command held in the record body `b`, whose first byte stands at
/// absolute offset `base`.
#[verifier::opaque]
pub open spec fn spec_command(b: Seq<u8>, base: int) -> Result<CommandView, Error> {
    match spec_u8(b, 0, base) {
        Err(e) => Err(e),
        Ok((id, p)) => if is_tab_tag(id) {
            match spec_tab(b, p, base) {
                Err(e) => Err(e),
                Ok(t) => Ok(CommandView { id, content: ContentView::Tab(t) }),
            }
        } else {
            Ok(CommandView { id, content: ContentView::Other(b.subrange(p, b.len() as int)) })
        },
    }
}

/// The declared length of the record whose length field stands at `p`.
pub open spec fn record_len(d: Seq<u8>, p: int) -> int {
    le_u16(d, p) as int
}

/// The commands of the record stream that begins at position `p` of the file `d`.
pub open spec fn spec_commands(d: Seq<u8>, p: int) -> Result<Seq<CommandView>, Error>
    decreases d.len() - p,
{
    if p < 0 || d.len() - p < 2 {
        Ok(seq![])
    } else {
        let len = record_len(d, p);
        if len > d.len() - p - 2 {
            Err(truncated_at(p))
        } else {
            match spec_command(d.subrange(p + 2, p + 2 + len), p + 2) {
                Err(e) => Err(e),
                Ok(c) => match spec_commands(d, p + 2 + len) {
                    Err(e) => Err(e),
                    Ok(cs) => Ok(seq![c] + cs),
                },
            }
        }
    }
}

/// The ASCII tag at the start of every file.
pub open spec fn magic() -> Seq<u8> {
    seq![0x53u8, 0x4eu8, 0x53u8, 0x53u8]
}

/// The decoding of the whole file `d`.
pub open spec fn spec_parse(d: Seq<u8>) -> Result<SessionView, Error> {
    if d.len() < 4 || d.subrange(0, 4) != magic() {
        Err(Error { kind: ErrorKind::BadMagic, offset: 0 })
    } else {
        match spec_i32(d, 4, 0) {
            Err(e) => Err(e),
            Ok((version, p)) => match spec_commands(d, p) {
                Err(e) => Err(e),
                Ok(commands) => Ok(SessionView { version, commands }),
            },
        }
    }
}

/// Decodes the fields of a tab record from the reader's cursor; the bytes
/// after the last field are left unread.
pub fn parse_tab(r: &mut Reader) -> (res: Result<Tab, Error>)
    requires
        old(r).wf(),
    ensures
        match spec_tab(old(r).data(), old(r).pos(), old(r).base()) {
            Ok(t) => res is Ok && res->Ok_0@ == t,
            Err(e) => res == Err::<Tab, Error>(e),
        },
{
    reveal(spec_tab);
    if let Err(e) = r.take(4) {
        return Err(e);
    }
    let id = match r.read_i32_le() {
        Ok(v) => v,
        Err(e) => return Err(e),
    };
    let index = match r.read_i32_le() {
        Ok(v) => v,
        Err(e) => return Err(e),
    };
    let url = match read_utf8_field(r) {
        Ok(v) => v,
        Err(e) => return Err(e),
    };
    let title = match read_utf16_field(r) {
        Ok(v) => v,
        Err(e) => return Err(e),
    };
    let state = match read_bytes_field(r) {
        Ok(v) => v,
        Err(e) => return Err(e),
    };
    let transition = match r.read_u32_le() {
        Ok(v) => v,
        Err(e) => return Err(e),
    };
    let post = match r.read_i32_le() {
        Ok(v) => v,
        Err(e) => return Err(e),
    };
    let referrer_url = match read_utf8_field(r) {
        Ok(v) => v,
        Err(e) => return Err(e),
    };
    let reference_policy = match r.read_i32_le() {
        Ok(v) => v,
        Err(e) => return Err(e),
    };
    let original_request_url = match read_utf8_field(r) {
        Ok(v) => v,
        Err(e) => return Err(e),
    };
    let user_agent = match r.read_i32_le() {
        Ok(v) => v,
        Err(e) => return Err(e),
    };
    Ok(
        Tab {
            id,
            index,
            url,
            title,
            state,
            transition: PageTransition(transition),
            post: post != 0,
            referrer_url,
            reference_policy,
            original_request_url,
            user_agent: user_agent != 0,
        },
    )
}

/// Decodes one record body, `rec`, whose first byte stands at absolute
/// offset `base`: a tab entry for the tab tags, the raw bytes otherwise.
pub fn parse_command(rec: &[u8], base: usize) -> (res: Result<Command, Error>)
    requires
        base + rec@.len() <= usize::MAX,
    ensures
        match spec_command(rec@, base as int) {
            Ok(c) => res is Ok && res->Ok_0@ == c,
            Err(e) => res == Err::<Command, Error>(e),
        },
{
    reveal(spec_command);
    let mut r = Reader::new(rec, base);
    let id = match r.read_u8() {
        Ok(v) => v,
        Err(e) => return Err(e),
    };
    if id == 1 || id == 6 {
        match parse_tab(&mut r) {
            Ok(t) => Ok(Command { id, content: Content::Tab(t) }),
            Err(e) => Err(e),
        }
    } else {
        Ok(Command { id, content: Content::Other(r.remaining()) })
    }
}

/// `done` followed by the outcome `rest`.
pub open spec fn prepend(done: Seq<CommandView>, rest: Result<Seq<CommandView>, Error>) -> Result<
    Seq<CommandView>,
    Error,
> {
    match rest {
        Ok(cs) => Ok(done + cs),
        Err(e) => Err(e),
    }
}

proof fn lemma_prepend_step(
    done: Seq<CommandView>,
    c: CommandView,
    rest: Result<Seq<CommandView>, Error>,
)
    ensures
        prepend(
            done,
            match rest {
                Ok(cs) => Ok(seq![c] + cs),
                Err(e) => Err(e),
            },
        ) == prepend(done.push(c), rest),
{
    if let Ok(cs) = rest {
        assert(done + (seq![c] + cs) == done.push(c) + cs);
    }
}

/// Decodes a whole SNSS file.
pub fn parse(data: &[u8]) -> (res: Result<SNSS, Error>)
    ensures
        match spec_parse(data@) {
            Ok(s) => res is Ok && res->Ok_0@ == s,
            Err(e) => res is Err && res->Err_0 == e,
        },
{
    if data.len() < 4 || data[0] != 0x53 || data[1] != 0x4e || data[2] != 0x53 || data[3] != 0x53 {
        assert(data@.len() >= 4 ==> (data@.subrange(0, 4) == magic() <==> (data@[0] == 0x53
            && data@[1] == 0x4e && data@[2] == 0x53 && data@[3] == 0x53)));
        return Err(Error { kind: ErrorKind::BadMagic, offset: 0 });
    }
    assert(data@.subrange(0, 4) == magic());
    let mut r = Reader::new(data, 0);
    let _ = r.take(4);
    let version = match r.read_i32_le() {
        Ok(v) => v,
        Err(e) => return Err(e),
    };
    let ghost d = data@;
    assert(spec_parse(d) == match spec_commands(d, 8) {
        Ok(cs) => Ok(SessionView { version, commands: cs }),
        Err(e) => Err(e),
    });
    let mut commands: Vec<Command> = Vec::new();
    while r.remaining_len() >= 2
        invariant
            r.wf(),
            r.data() == d,
            d == data@,
            r.base() == 0,
            8 <= r.pos(),
            spec_commands(d, 8) == prepend(commands_view(commands@), spec_commands(d, r.pos())),
            spec_parse(d) == match spec_commands(d, 8) {
                Ok(cs) => Ok(SessionView { version, commands: cs }),
                Err(e) => Err(e),
            },
        decreases d.len() - r.pos(),
    {
        let ghost p = r.pos();
        let start = r.offset();
        let len = match r.read_u16_le() {
            Ok(v) => v,
            Err(e) => return Err(e),
        };
        if len as usize > r.remaining_len() {
            assert(spec_commands(d, p) == Err::<Seq<CommandView>, Error>(truncated_at(p)));
            return Err(Error { kind: ErrorKind::Truncated, offset: start });
        }
        let body_base = r.offset();
        let body = match r.take(len as usize) {
            Ok(b) => b,
            Err(e) => return Err(e),
        };
        let c = match parse_command(body, body_base) {
            Ok(c) => c,
            Err(e) => {
                assert(spec_commands(d, p) == Err::<Seq<CommandView>, Error>(e));
                return Err(e);
            },
        };
        let ghost before = commands_view(commands@);
        commands.push(c);
        proof {
            assert(commands_view(commands@) == before.push(c@));
            lemma_prepend_step(before, c@, spec_commands(d, r.pos()));
        }
    }
    assert(spec_commands(d, r.pos()) == Ok::<Seq<CommandView>, Error>(seq![]));
    assert(commands_view(commands@) + seq![] == commands_view(commands@));
    Ok(SNSS { version, commands })
}

} // verus!
