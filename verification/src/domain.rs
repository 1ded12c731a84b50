//! Parsing the command line into a `Command`.
//!
//! Every parser is total: for each argument list it either produces the
//! fully described command value or the usage error of the command it was
//! aimed at.  The contracts pin both down exactly.

use vstd::prelude::*;

use crate::errors::RobeError;

verus! {

broadcast use vstd::std_specs::vec::group_vec_axioms, vstd::seq::group_seq_axioms;

/// The character sequences of an argument list.
pub open spec fn arg_views(args: Seq<String>) -> Seq<Seq<char>> {
    args.map_values(|s: String| s@)
}

/// Whether the argument list holds the given word.
pub open spec fn contains_word(argv: Seq<Seq<char>>, w: Seq<char>) -> bool {
    exists|i: int| 0 <= i < argv.len() && argv[i] == w
}

/// The arguments joined with a separator, as `join` produces it.
pub open spec fn join_views(argv: Seq<Seq<char>>, sep: Seq<char>) -> Seq<char>
    decreases argv.len(),
{
    if argv.len() == 0 {
        Seq::empty()
    } else if argv.len() == 1 {
        argv[0]
    } else {
        argv[0] + sep + join_views(argv.subrange(1, argv.len() as int), sep)
    }
}

/// The string has a slash at `i` and nowhere else.
pub open spec fn single_slash_at(s: Seq<char>, i: int) -> bool {
    0 <= i < s.len() && s[i] == '/' && (forall|j: int|
        0 <= j < s.len() && j != i ==> s[j] != '/')
}

/// The string can be split as `<target>/<profile>`: exactly one slash.
pub open spec fn splits_once(s: Seq<char>) -> bool {
    exists|i: int| single_slash_at(s, i)
}

/// The position of the only slash of the string.
pub open spec fn slash_idx(s: Seq<char>) -> int {
    choose|i: int| single_slash_at(s, i)
}

/// The target part: everything before the only slash.
pub open spec fn split_target(s: Seq<char>) -> Seq<char> {
    s.subrange(0, slash_idx(s))
}

/// The profile part: everything after the only slash.
pub open spec fn split_profile(s: Seq<char>) -> Seq<char> {
    s.subrange(slash_idx(s) + 1, s.len() as int)
}

/// Whether two string slices hold the same characters.
fn str_eq(a: &str, b: &str) -> (r: bool)
    ensures
        r == (a@ == b@),
{
    String::from_str(a) == String::from_str(b)
}

/// Whether the argument list holds the given word.
fn contains_arg(args: &[String], w: &str) -> (r: bool)
    ensures
        r == contains_word(arg_views(args@), w@),
{
    let ghost argv = arg_views(args@);
    let mut i: usize = 0;
    while i < args.len()
        invariant
            i <= args@.len(),
            argv == arg_views(args@),
            forall|k: int| 0 <= k < i ==> argv[k] != w@,
        decreases args@.len() - i,
    {
        proof {
            assert(argv[i as int] == args@[i as int]@);
        }
        if str_eq(args[i].as_str(), w) {
            return true;
        }
        i += 1;
    }
    false
}

/// Joins the arguments with a single separator between them.
pub fn join_args(args: &[String], sep: &str) -> (r: String)
    ensures
        r@ == join_views(arg_views(args@), sep@),
{
    let ghost argv = arg_views(args@);
    let mut out = String::new();
    let mut i: usize = 0;
    while i < args.len()
        invariant
            i <= args@.len(),
            argv == arg_views(args@),
            i == 0 ==> out@ == Seq::<char>::empty(),
            0 < i ==> out@ == join_views(argv.subrange(0, i as int), sep@),
        decreases args@.len() - i,
    {
        if i > 0 {
            out.append(sep);
        }
        out.append(args[i].as_str());
        proof {
            lemma_join_views_snoc(argv, sep@, i as int);
        }
        i += 1;
    }
    proof {
        if args@.len() > 0 {
            assert(argv.subrange(0, argv.len() as int) =~= argv);
        }
    }
    out
}

proof fn lemma_join_views_snoc(argv: Seq<Seq<char>>, sep: Seq<char>, i: int)
    requires
        0 <= i < argv.len(),
    ensures
        i == 0 ==> join_views(argv.subrange(0, 1), sep) == argv[0],
        i > 0 ==> join_views(argv.subrange(0, i + 1), sep) == join_views(
            argv.subrange(0, i),
            sep,
        ) + sep + argv[i],
    decreases i,
{
    if i == 0 {
        assert(argv.subrange(0, 1).len() == 1);
        assert(argv.subrange(0, 1)[0] == argv[0]);
    } else {
        let a = argv.subrange(0, i + 1);
        let b = argv.subrange(0, i);
        assert(a.subrange(1, a.len() as int) =~= argv.subrange(1, i + 1));
        assert(b.subrange(1, b.len() as int) =~= argv.subrange(1, i));
        lemma_join_views_snoc(argv.subrange(1, argv.len() as int), sep, i - 1);
        assert(argv.subrange(1, argv.len() as int).subrange(0, i) =~= argv.subrange(1, i + 1));
        assert(argv.subrange(1, argv.len() as int).subrange(0, i - 1) =~= argv.subrange(1, i));
        assert(argv.subrange(1, argv.len() as int)[i - 1] == argv[i]);
        if i == 1 {
            assert(join_views(b, sep) == argv[0]) by {
                lemma_join_views_snoc(argv, sep, 0);
            }
            assert(a[0] == argv[0] && a[1] == argv[1]);
            assert(a.subrange(1, 2)[0] == argv[1]);
        }
    }
}

/// Splits `<target>/<profile>` at the only slash; `None` unless the string
/// holds exactly one slash.
pub fn split_target_and_profile(joined: &str) -> (r: Option<(String, String)>)
    ensures
        r matches Some(tp) ==> splits_once(joined@) && tp.0@ == split_target(joined@)
            && tp.1@ == split_profile(joined@),
        r is None ==> !splits_once(joined@),
{
    let n = joined.unicode_len();
    let mut i: usize = 0;
    let mut first: usize = 0;
    let mut found = false;
    let mut dup = false;
    while i < n
        invariant
            n == joined@.len(),
            i <= n,
            !found ==> forall|j: int| 0 <= j < i ==> joined@[j] != '/',
            found ==> first < i && joined@[first as int] == '/' && (forall|j: int|
                0 <= j < first ==> joined@[j] != '/'),
            found ==> (dup <==> exists|j: int|
                first < j < i && #[trigger] joined@[j] == '/'),
            !found ==> !dup,
        decreases n - i,
    {
        let c = joined.get_char(i);
        if c == '/' {
            if !found {
                first = i;
                found = true;
            } else {
                dup = true;
            }
        }
        i += 1;
    }
    if found && !dup {
        proof {
            assert(single_slash_at(joined@, first as int));
            let w = slash_idx(joined@);
            assert(single_slash_at(joined@, w));
            assert(w == first as int);
        }
        let t = joined.substring_char(0, first);
        let p = joined.substring_char(first + 1, n);
        Some((String::from_str(t), String::from_str(p)))
    } else {
        proof {
            if splits_once(joined@) {
                let w = slash_idx(joined@);
                assert(single_slash_at(joined@, w));
            }
        }
        None
    }
}

/// Whether the string holds a slash anywhere.
pub open spec fn has_slash(s: Seq<char>) -> bool {
    exists|i: int| 0 <= i < s.len() && s[i] == '/'
}

/// Whether the string slice holds a slash anywhere.
fn has_slash_exec(s: &str) -> (r: bool)
    ensures
        r == has_slash(s@),
{
    let n = s.unicode_len();
    let mut i: usize = 0;
    while i < n
        invariant
            n == s@.len(),
            i <= n,
            forall|j: int| 0 <= j < i ==> s@[j] != '/',
        decreases n - i,
    {
        if s.get_char(i) == '/' {
            return true;
        }
        i += 1;
    }
    false
}

#[derive(Debug, Clone)]
pub enum Command {
    Help(String),
    Version,
    Add(Add),
    Register(Register),
    Edit(Edit),
    Use(Use),
    View(ViewCmd),
    List(List),
    Rm(Rm),
    Status(Status),
}

#[derive(Debug, Clone)]
pub struct Add {
    pub target: String,
    pub profile: String,
    pub force: bool,
    pub to_register: Option<String>,
}

#[derive(Debug, Clone)]
pub struct Register {
    pub target: String,
    pub profile: String,
    pub register_file_path: String,
}

#[derive(Debug, Clone)]
pub struct Edit {
    pub target: String,
    pub profile: Option<String>,
}

#[derive(Debug, Clone)]
pub struct ViewCmd {
    pub target: String,
    pub profile: Option<String>,
    pub raw: bool,
}

#[derive(Debug, Clone)]
pub struct Use {
    pub target: String,
    pub profile: String,
}

#[derive(Debug, Clone)]
pub struct List {
    pub target: Option<String>,
}

#[derive(Debug, Clone)]
pub struct Rm {
    pub target: String,
    pub profile: Option<String>,
}

#[derive(Debug, Clone)]
pub struct Status {
    pub target: Option<String>,
}

/// The running state of an argument loop: what has been gathered so far.
pub ghost struct ParseSt {
    pub target: Seq<char>,
    pub profile: Seq<char>,
    pub path: Seq<char>,
    pub force: bool,
    pub raw: bool,
    pub prof_some: bool,
    pub seen: bool,
}

pub open spec fn init_st() -> ParseSt {
    ParseSt {
        target: Seq::empty(),
        profile: Seq::empty(),
        path: Seq::empty(),
        force: false,
        raw: false,
        prof_some: false,
        seen: false,
    }
}

/// What the `add` argument loop computes: a force flag may come anywhere,
/// exactly one other argument must come and must split as
/// `<target>/<profile>`.
pub open spec fn add_loop(argv: Seq<Seq<char>>, st: ParseSt) -> Result<ParseSt, ()>
    decreases argv.len(),
{
    if argv.len() == 0 {
        if st.seen {
            Ok(st)
        } else {
            Err(())
        }
    } else if argv[0] == "-f"@ || argv[0] == "--force"@ {
        add_loop(argv.subrange(1, argv.len() as int), ParseSt { force: true, ..st })
    } else if !st.seen {
        if splits_once(argv[0]) {
            add_loop(
                argv.subrange(1, argv.len() as int),
                ParseSt {
                    target: split_target(argv[0]),
                    profile: split_profile(argv[0]),
                    seen: true,
                    ..st
                },
            )
        } else {
            Err(())
        }
    } else {
        Err(())
    }
}

/// What the register argument loop computes: `-r`/`--register` takes the
/// following argument as the path, exactly one other argument must come
/// and must split as `<target>/<profile>`.
pub open spec fn register_loop(argv: Seq<Seq<char>>, st: ParseSt) -> Result<ParseSt, ()>
    decreases argv.len(),
{
    if argv.len() == 0 {
        if st.seen {
            Ok(st)
        } else {
            Err(())
        }
    } else if argv[0] == "-r"@ || argv[0] == "--register"@ {
        if argv.len() == 1 {
            Err(())
        } else {
            register_loop(argv.subrange(2, argv.len() as int), ParseSt { path: argv[1], ..st })
        }
    } else if !st.seen {
        if splits_once(argv[0]) {
            register_loop(
                argv.subrange(1, argv.len() as int),
                ParseSt {
                    target: split_target(argv[0]),
                    profile: split_profile(argv[0]),
                    seen: true,
                    ..st
                },
            )
        } else {
            Err(())
        }
    } else {
        Err(())
    }
}

/// What the view argument loop computes: `--raw` may come anywhere, exactly
/// one other argument names the target, with an optional profile after a
/// slash.
pub open spec fn view_loop(argv: Seq<Seq<char>>, st: ParseSt) -> Result<ParseSt, ()>
    decreases argv.len(),
{
    if argv.len() == 0 {
        if st.seen {
            Ok(st)
        } else {
            Err(())
        }
    } else if argv[0] == "--raw"@ {
        view_loop(argv.subrange(1, argv.len() as int), ParseSt { raw: true, ..st })
    } else if !st.seen {
        if !has_slash(argv[0]) {
            view_loop(
                argv.subrange(1, argv.len() as int),
                ParseSt { target: argv[0], prof_some: false, seen: true, ..st },
            )
        } else if splits_once(argv[0]) {
            view_loop(
                argv.subrange(1, argv.len() as int),
                ParseSt {
                    target: split_target(argv[0]),
                    profile: split_profile(argv[0]),
                    prof_some: true,
                    seen: true,
                    ..st
                },
            )
        } else {
            Err(())
        }
    } else {
        Err(())
    }
}

pub open spec fn add_usage() -> Seq<char> {
    "Usage: robe add <target>/<profile> [-r file] [-f]"@
}

pub open spec fn register_usage() -> Seq<char> {
    "Usage: robe add <target>/<profile> [-r <path>]"@
}

pub open spec fn edit_usage() -> Seq<char> {
    "Usage: robe edit <target>[/<profile>]"@
}

pub open spec fn view_usage() -> Seq<char> {
    "Usage: robe view <target>[/<profile>] [--raw]"@
}

pub open spec fn use_usage() -> Seq<char> {
    "Usage: robe use <target>/<profile>"@
}

pub open spec fn rm_usage() -> Seq<char> {
    "Usage: robe rm <target>[/<profile>]"@
}

pub open spec fn status_usage() -> Seq<char> {
    "Usage: robe status [<target>]"@
}

pub open spec fn list_usage(c: Seq<char>) -> Seq<char> {
    "Usage: robe "@ + c + " [<target>]"@
}

pub open spec fn is_bad_usage(r: Result<Command, RobeError>, msg: Seq<char>) -> bool {
    r matches Err(RobeError::BadUsage(m)) && m@ == msg
}

pub open spec fn add_post(argv: Seq<Seq<char>>, r: Result<Command, RobeError>) -> bool {
    match add_loop(argv, init_st()) {
        Ok(st) => r matches Ok(Command::Add(a)) && a.target@ == st.target && a.profile@
            == st.profile && a.force == st.force && a.to_register is None,
        Err(_) => is_bad_usage(r, add_usage()),
    }
}

pub open spec fn register_post(argv: Seq<Seq<char>>, r: Result<Command, RobeError>) -> bool {
    match register_loop(argv, init_st()) {
        Ok(st) => r matches Ok(Command::Register(a)) && a.target@ == st.target && a.profile@
            == st.profile && a.register_file_path@ == st.path,
        Err(_) => is_bad_usage(r, register_usage()),
    }
}

pub open spec fn view_post(argv: Seq<Seq<char>>, r: Result<Command, RobeError>) -> bool {
    if argv.len() == 0 || argv.len() > 2 {
        is_bad_usage(r, view_usage())
    } else {
        match view_loop(argv, init_st()) {
            Ok(st) => r matches Ok(Command::View(v)) && v.target@ == st.target && v.raw == st.raw
                && (if st.prof_some {
                v.profile matches Some(p) && p@ == st.profile
            } else {
                v.profile is None
            }),
            Err(_) => is_bad_usage(r, view_usage()),
        }
    }
}

pub open spec fn edit_post(argv: Seq<Seq<char>>, r: Result<Command, RobeError>) -> bool {
    if argv.len() != 1 {
        is_bad_usage(r, edit_usage())
    } else if !has_slash(argv[0]) {
        r matches Ok(Command::Edit(e)) && e.target@ == argv[0] && e.profile is None
    } else if splits_once(argv[0]) {
        r matches Ok(Command::Edit(e)) && e.target@ == split_target(argv[0]) && (e.profile
            matches Some(p) && p@ == split_profile(argv[0]))
    } else {
        is_bad_usage(r, edit_usage())
    }
}

pub open spec fn use_post(argv: Seq<Seq<char>>, r: Result<Command, RobeError>) -> bool {
    if argv.len() != 1 {
        is_bad_usage(r, use_usage())
    } else if splits_once(argv[0]) {
        r matches Ok(Command::Use(u)) && u.target@ == split_target(argv[0]) && u.profile@
            == split_profile(argv[0])
    } else {
        is_bad_usage(r, use_usage())
    }
}

pub open spec fn rm_post(argv: Seq<Seq<char>>, r: Result<Command, RobeError>) -> bool {
    if argv.len() != 1 {
        is_bad_usage(r, rm_usage())
    } else if !has_slash(argv[0]) {
        r matches Ok(Command::Rm(e)) && e.target@ == argv[0] && e.profile is None
    } else if splits_once(argv[0]) {
        r matches Ok(Command::Rm(e)) && e.target@ == split_target(argv[0]) && (e.profile
            matches Some(p) && p@ == split_profile(argv[0]))
    } else {
        is_bad_usage(r, rm_usage())
    }
}

pub open spec fn list_post(argv: Seq<Seq<char>>, r: Result<Command, RobeError>, c: Seq<char>) -> bool {
    if argv.len() > 1 {
        is_bad_usage(r, list_usage(c))
    } else if argv.len() == 0 {
        r matches Ok(Command::List(l)) && l.target is None
    } else {
        r matches Ok(Command::List(l)) && (l.target matches Some(t) && t@ == argv[0])
    }
}

pub open spec fn status_post(argv: Seq<Seq<char>>, r: Result<Command, RobeError>) -> bool {
    if argv.len() > 1 {
        is_bad_usage(r, status_usage())
    } else if argv.len() == 0 {
        r matches Ok(Command::Status(l)) && l.target is None
    } else {
        r matches Ok(Command::Status(l)) && (l.target matches Some(t) && t@ == argv[0])
    }
}

impl Add {
    fn bu() -> (e: RobeError)
        ensures
            e matches RobeError::BadUsage(m) && m@ == add_usage(),
    {
        RobeError::BadUsage(String::from_str("Usage: robe add <target>/<profile> [-r file] [-f]"))
    }

    pub fn parse(args: &[String]) -> (r: Result<Command, RobeError>)
        ensures
            add_post(arg_views(args@), r),
    {
        let ghost argv = arg_views(args@);
        if args.is_empty() {
            return Err(Self::bu());
        }
        proof {
            assert(argv.subrange(0, argv.len() as int) =~= argv);
        }
        let mut cmd = Add {
            target: String::new(),
            profile: String::new(),
            force: false,
            to_register: None,
        };
        let mut i: usize = 0;
        let mut seen_target = false;
        while i < args.len()
            invariant
                i <= args@.len(),
                argv == arg_views(args@),
                cmd.to_register is None,
                add_loop(argv, init_st()) == add_loop(
                    argv.subrange(i as int, argv.len() as int),
                    ParseSt {
                        target: cmd.target@,
                        profile: cmd.profile@,
                        path: Seq::empty(),
                        force: cmd.force,
                        raw: false,
                        prof_some: false,
                        seen: seen_target,
                    },
                ),
            decreases args@.len() - i,
        {
            proof {
                assert(argv[i as int] == args@[i as int]@);
                let rem = argv.subrange(i as int, argv.len() as int);
                assert(rem[0] == argv[i as int]);
                assert(rem.subrange(1, rem.len() as int) =~= argv.subrange(
                    i as int + 1,
                    argv.len() as int,
                ));
            }
            let arg = &args[i];
            if str_eq(arg.as_str(), "-f") || str_eq(arg.as_str(), "--force") {
                cmd.force = true;
            } else if !seen_target {
                match split_target_and_profile(arg.as_str()) {
                    Some(tp) => {
                        cmd.target = tp.0;
                        cmd.profile = tp.1;
                        seen_target = true;
                    },
                    None => {
                        return Err(Self::bu());
                    },
                }
            } else {
                return Err(Self::bu());
            }
            i += 1;
        }
        proof {
            assert(argv.subrange(argv.len() as int, argv.len() as int) =~= Seq::<
                Seq<char>,
            >::empty());
        }
        if seen_target {
            Ok(Command::Add(cmd))
        } else {
            Err(Self::bu())
        }
    }
}

impl Register {
    fn bu() -> (e: RobeError)
        ensures
            e matches RobeError::BadUsage(m) && m@ == register_usage(),
    {
        RobeError::BadUsage(String::from_str("Usage: robe add <target>/<profile> [-r <path>]"))
    }

    pub fn parse(args: &[String]) -> (r: Result<Command, RobeError>)
        ensures
            register_post(arg_views(args@), r),
    {
        let ghost argv = arg_views(args@);
        proof {
            assert(argv.subrange(0, argv.len() as int) =~= argv);
        }
        let mut cmd = Register {
            target: String::new(),
            profile: String::new(),
            register_file_path: String::new(),
        };
        let mut i: usize = 0;
        let mut seen_target = false;
        while i < args.len()
            invariant
                i <= args@.len(),
                argv == arg_views(args@),
                register_loop(argv, init_st()) == register_loop(
                    argv.subrange(i as int, argv.len() as int),
                    ParseSt {
                        target: cmd.target@,
                        profile: cmd.profile@,
                        path: cmd.register_file_path@,
                        force: false,
                        raw: false,
                        prof_some: false,
                        seen: seen_target,
                    },
                ),
            decreases args@.len() - i,
        {
            proof {
                assert(argv[i as int] == args@[i as int]@);
                let rem = argv.subrange(i as int, argv.len() as int);
                assert(rem[0] == argv[i as int]);
                assert(rem.subrange(1, rem.len() as int) =~= argv.subrange(
                    i as int + 1,
                    argv.len() as int,
                ));
            }
            let arg = &args[i];
            if str_eq(arg.as_str(), "-r") || str_eq(arg.as_str(), "--register") {
                proof {
                    let rem = argv.subrange(i as int, argv.len() as int);
                    if rem.len() >= 2 {
                        assert(rem[1] == argv[i as int + 1]);
                        assert(argv[i as int + 1] == args@[i as int + 1]@);
                        assert(rem.subrange(2, rem.len() as int) =~= argv.subrange(
                            i as int + 2,
                            argv.len() as int,
                        ));
                    }
                }
                if i + 1 < args.len() {
                    cmd.register_file_path = args[i + 1].clone();
                    i += 2;
                } else {
                    return Err(Self::bu());
                }
            } else {
                if !seen_target {
                    match split_target_and_profile(arg.as_str()) {
                        Some(tp) => {
                            cmd.target = tp.0;
                            cmd.profile = tp.1;
                            seen_target = true;
                        },
                        None => {
                            return Err(Self::bu());
                        },
                    }
                } else {
                    return Err(Self::bu());
                }
                i += 1;
            }
        }
        proof {
            assert(argv.subrange(argv.len() as int, argv.len() as int) =~= Seq::<
                Seq<char>,
            >::empty());
        }
        if seen_target {
            Ok(Command::Register(cmd))
        } else {
            Err(Self::bu())
        }
    }
}

impl ViewCmd {
    fn bu() -> (e: RobeError)
        ensures
            e matches RobeError::BadUsage(m) && m@ == view_usage(),
    {
        RobeError::BadUsage(String::from_str("Usage: robe view <target>[/<profile>] [--raw]"))
    }

    pub fn parse(args: &[String]) -> (r: Result<Command, RobeError>)
        ensures
            view_post(arg_views(args@), r),
    {
        let ghost argv = arg_views(args@);
        if args.is_empty() || args.len() > 2 {
            return Err(Self::bu());
        }
        proof {
            assert(argv.subrange(0, argv.len() as int) =~= argv);
        }
        let mut cmd = ViewCmd { target: String::new(), profile: None, raw: false };
        let mut i: usize = 0;
        let mut seen_target = false;
        while i < args.len()
            invariant
                i <= args@.len(),
                argv == arg_views(args@),
                !seen_target ==> cmd.profile is None,
                view_loop(argv, init_st()) == view_loop(
                    argv.subrange(i as int, argv.len() as int),
                    ParseSt {
                        target: cmd.target@,
                        profile: match cmd.profile {
                            Some(p) => p@,
                            None => Seq::empty(),
                        },
                        path: Seq::empty(),
                        force: false,
                        raw: cmd.raw,
                        prof_some: cmd.profile is Some,
                        seen: seen_target,
                    },
                ),
            decreases args@.len() - i,
        {
            proof {
                assert(argv[i as int] == args@[i as int]@);
                let rem = argv.subrange(i as int, argv.len() as int);
                assert(rem[0] == argv[i as int]);
                assert(rem.subrange(1, rem.len() as int) =~= argv.subrange(
                    i as int + 1,
                    argv.len() as int,
                ));
            }
            let arg = &args[i];
            if str_eq(arg.as_str(), "--raw") {
                cmd.raw = true;
            } else if !seen_target {
                if has_slash_exec(arg.as_str()) {
                    match split_target_and_profile(arg.as_str()) {
                        Some(tp) => {
                            cmd.target = tp.0;
                            cmd.profile = Some(tp.1);
                            seen_target = true;
                        },
                        None => {
                            return Err(Self::bu());
                        },
                    }
                } else {
                    cmd.target = arg.clone();
                    cmd.profile = None;
                    seen_target = true;
                }
            } else {
                return Err(Self::bu());
            }
            i += 1;
        }
        proof {
            assert(argv.subrange(argv.len() as int, argv.len() as int) =~= Seq::<
                Seq<char>,
            >::empty());
        }
        if seen_target {
            Ok(Command::View(cmd))
        } else {
            Err(Self::bu())
        }
    }
}

impl Edit {
    fn bu() -> (e: RobeError)
        ensures
            e matches RobeError::BadUsage(m) && m@ == edit_usage(),
    {
        RobeError::BadUsage(String::from_str("Usage: robe edit <target>[/<profile>]"))
    }

    pub fn parse(args: &[String]) -> (r: Result<Command, RobeError>)
        ensures
            edit_post(arg_views(args@), r),
    {
        let ghost argv = arg_views(args@);
        if args.len() != 1 {
            return Err(Self::bu());
        }
        proof {
            assert(argv[0] == args@[0]@);
        }
        let first = &args[0];
        if has_slash_exec(first.as_str()) {
            match split_target_and_profile(first.as_str()) {
                Some(tp) => Ok(Command::Edit(Edit { target: tp.0, profile: Some(tp.1) })),
                None => Err(Self::bu()),
            }
        } else {
            Ok(Command::Edit(Edit { target: first.clone(), profile: None }))
        }
    }
}

impl Use {
    fn bu() -> (e: RobeError)
        ensures
            e matches RobeError::BadUsage(m) && m@ == use_usage(),
    {
        RobeError::BadUsage(String::from_str("Usage: robe use <target>/<profile>"))
    }

    pub fn parse(args: &[String]) -> (r: Result<Command, RobeError>)
        ensures
            use_post(arg_views(args@), r),
    {
        let ghost argv = arg_views(args@);
        if args.len() != 1 {
            return Err(Self::bu());
        }
        proof {
            assert(argv[0] == args@[0]@);
        }
        match split_target_and_profile(args[0].as_str()) {
            Some(tp) => Ok(Command::Use(Use { target: tp.0, profile: tp.1 })),
            None => Err(Self::bu()),
        }
    }
}

impl Rm {
    fn bu() -> (e: RobeError)
        ensures
            e matches RobeError::BadUsage(m) && m@ == rm_usage(),
    {
        RobeError::BadUsage(String::from_str("Usage: robe rm <target>[/<profile>]"))
    }

    pub fn parse(args: &[String]) -> (r: Result<Command, RobeError>)
        ensures
            rm_post(arg_views(args@), r),
    {
        let ghost argv = arg_views(args@);
        if args.len() != 1 {
            return Err(Self::bu());
        }
        proof {
            assert(argv[0] == args@[0]@);
        }
        let first = &args[0];
        if has_slash_exec(first.as_str()) {
            match split_target_and_profile(first.as_str()) {
                Some(tp) => Ok(Command::Rm(Rm { target: tp.0, profile: Some(tp.1) })),
                None => Err(Self::bu()),
            }
        } else {
            Ok(Command::Rm(Rm { target: first.clone(), profile: None }))
        }
    }
}

impl List {
    fn bu(cmd: &str) -> (e: RobeError)
        ensures
            e matches RobeError::BadUsage(m) && m@ == list_usage(cmd@),
    {
        RobeError::BadUsage(
            String::from_str("Usage: robe ").concat(cmd).concat(" [<target>]"),
        )
    }

    pub fn parse(args: &[String], c: &str) -> (r: Result<Command, RobeError>)
        ensures
            list_post(arg_views(args@), r, c@),
    {
        let ghost argv = arg_views(args@);
        if args.len() > 1 {
            Err(Self::bu(c))
        } else if args.len() == 0 {
            Ok(Command::List(List { target: None }))
        } else {
            proof {
                assert(argv[0] == args@[0]@);
            }
            Ok(Command::List(List { target: Some(args[0].clone()) }))
        }
    }
}

impl Status {
    fn bu() -> (e: RobeError)
        ensures
            e matches RobeError::BadUsage(m) && m@ == status_usage(),
    {
        RobeError::BadUsage(String::from_str("Usage: robe status [<target>]"))
    }

    pub fn parse(args: &[String]) -> (r: Result<Command, RobeError>)
        ensures
            status_post(arg_views(args@), r),
    {
        let ghost argv = arg_views(args@);
        if args.len() > 1 {
            Err(Self::bu())
        } else if args.len() == 0 {
            Ok(Command::Status(Status { target: None }))
        } else {
            proof {
                assert(argv[0] == args@[0]@);
            }
            Ok(Command::Status(Status { target: Some(args[0].clone()) }))
        }
    }
}

/// What dispatching on the command word yields, for each command word.
pub open spec fn internal_post(
    cmd: Seq<char>,
    argv: Seq<Seq<char>>,
    r: Result<Command, RobeError>,
) -> bool {
    if cmd == "add"@ && (contains_word(argv, "-r"@) || contains_word(argv, "--register"@)) {
        register_post(argv, r)
    } else if cmd == "add"@ {
        add_post(argv, r)
    } else if cmd == "edit"@ {
        edit_post(argv, r)
    } else if cmd == "use"@ {
        use_post(argv, r)
    } else if cmd == "list"@ {
        list_post(argv, r, "list"@)
    } else if cmd == "ls"@ {
        list_post(argv, r, "ls"@)
    } else if cmd == "rm"@ {
        rm_post(argv, r)
    } else if cmd == "view"@ {
        view_post(argv, r)
    } else if cmd == "status"@ {
        status_post(argv, r)
    } else {
        r matches Err(RobeError::BadUsage(m)) && m@ == "Command not recognized: "@ + cmd
    }
}

fn parse_internal(cmd: &str, args: &[String]) -> (r: Result<Command, RobeError>)
    ensures
        internal_post(cmd@, arg_views(args@), r),
{
    if str_eq(cmd, "add") && (contains_arg(args, "-r") || contains_arg(args, "--register")) {
        Register::parse(args)
    } else if str_eq(cmd, "add") {
        Add::parse(args)
    } else if str_eq(cmd, "edit") {
        Edit::parse(args)
    } else if str_eq(cmd, "use") {
        Use::parse(args)
    } else if str_eq(cmd, "list") {
        List::parse(args, "list")
    } else if str_eq(cmd, "ls") {
        List::parse(args, "ls")
    } else if str_eq(cmd, "rm") {
        Rm::parse(args)
    } else if str_eq(cmd, "view") {
        ViewCmd::parse(args)
    } else if str_eq(cmd, "status") {
        Status::parse(args)
    } else {
        Err(RobeError::BadUsage(String::from_str("Command not recognized: ").concat(cmd)))
    }
}

/// Parses a full argument list.  A help flag anywhere wins, then a version
/// flag; otherwise the first argument picks the command and the rest are
/// handed to its parser.
pub fn parse_cmd(args: &[String]) -> (r: Result<Command, RobeError>)
    ensures
        (contains_word(arg_views(args@), "-h"@) || contains_word(arg_views(args@), "--help"@))
            ==> (r matches Ok(Command::Help(s)) && s@ == join_views(arg_views(args@), " "@)),
        !(contains_word(arg_views(args@), "-h"@) || contains_word(arg_views(args@), "--help"@))
            && (contains_word(arg_views(args@), "-v"@) || contains_word(
            arg_views(args@),
            "--version"@,
        )) ==> r matches Ok(Command::Version),
        !(contains_word(arg_views(args@), "-h"@) || contains_word(arg_views(args@), "--help"@))
            && !(contains_word(arg_views(args@), "-v"@) || contains_word(
            arg_views(args@),
            "--version"@,
        )) && args@.len() == 0 ==> is_bad_usage(r, "No command provided."@),
        !(contains_word(arg_views(args@), "-h"@) || contains_word(arg_views(args@), "--help"@))
            && !(contains_word(arg_views(args@), "-v"@) || contains_word(
            arg_views(args@),
            "--version"@,
        )) && args@.len() > 0 ==> internal_post(
            args@[0]@,
            arg_views(args@).subrange(1, args@.len() as int),
            r,
        ),
{
    if contains_arg(args, "-h") || contains_arg(args, "--help") {
        return Ok(Command::Help(join_args(args, " ")));
    }
    if contains_arg(args, "-v") || contains_arg(args, "--version") {
        return Ok(Command::Version);
    }
    if args.len() == 0 {
        return Err(RobeError::BadUsage(String::from_str("No command provided.")));
    }
    let rest = vstd::slice::slice_subrange(args, 1, args.len());
    proof {
        assert(arg_views(rest@) =~= arg_views(args@).subrange(1, args@.len() as int));
        assert(arg_views(args@)[0] == args@[0]@);
    }
    parse_internal(args[0].as_str(), rest)
}

} // verus!
