use vstd::prelude::*;
use vstd::string::StringExecFns;

verus! {

/// The artifacts a run checkpoints.
#[derive(Debug, Clone, Copy, PartialEq, Eq, Structural)]
pub enum ArtifactKind {
    Model,
    Optim,
    Scheduler,
}

/// Name under which an artifact's checkpoint files are stored.
pub open spec fn kind_name(kind: ArtifactKind) -> Seq<char> {
    match kind {
        ArtifactKind::Model => seq!['m', 'o', 'd', 'e', 'l'],
        ArtifactKind::Optim => seq!['o', 'p', 't', 'i', 'm'],
        ArtifactKind::Scheduler => seq!['s', 'c', 'h', 'e', 'd', 'u', 'l', 'e', 'r'],
    }
}

/// The character of decimal digit `d`.
pub open spec fn digit_char(d: nat) -> char {
    seq!['0', '1', '2', '3', '4', '5', '6', '7', '8', '9'][d as int]
}

/// The decimal writing of `n`, without leading zeros.
pub open spec fn decimal(n: nat) -> Seq<char>
    decreases n,
{
    if n < 10 {
        seq![digit_char(n)]
    } else {
        decimal(n / 10).push(digit_char(n % 10))
    }
}

/// Path of the checkpoint file of `kind` for `epoch` in directory `dir`.
pub open spec fn checkpoint_path(dir: Seq<char>, kind: ArtifactKind, epoch: nat) -> Seq<char> {
    dir + seq!['/'] + kind_name(kind) + seq!['-'] + decimal(epoch)
}

fn digit_str(d: usize) -> (r: &'static str)
    requires
        d < 10,
    ensures
        r@ == seq![digit_char(d as nat)],
{
    proof {
        reveal_strlit("0");
        reveal_strlit("1");
        reveal_strlit("2");
        reveal_strlit("3");
        reveal_strlit("4");
        reveal_strlit("5");
        reveal_strlit("6");
        reveal_strlit("7");
        reveal_strlit("8");
        reveal_strlit("9");
    }
    match d {
        0 => "0",
        1 => "1",
        2 => "2",
        3 => "3",
        4 => "4",
        5 => "5",
        6 => "6",
        7 => "7",
        8 => "8",
        _ => "9",
    }
}

/// Writes `n` in decimal.
pub fn to_decimal(n: usize) -> (r: String)
    ensures
        r@ == decimal(n as nat),
    decreases n,
{
    if n < 10 {
        String::from_str(digit_str(n))
    } else {
        let head = to_decimal(n / 10);
        head.concat(digit_str(n % 10))
    }
}

fn kind_str(kind: ArtifactKind) -> (r: &'static str)
    ensures
        r@ == kind_name(kind),
{
    proof {
        reveal_strlit("model");
        reveal_strlit("optim");
        reveal_strlit("scheduler");
    }
    match kind {
        ArtifactKind::Model => "model",
        ArtifactKind::Optim => "optim",
        ArtifactKind::Scheduler => "scheduler",
    }
}

/// The file holding the checkpoint of `kind` for `epoch` in the checkpoint directory `dir`:
/// `<dir>/<kind>-<epoch>`.
pub fn checkpoint_file(dir: &String, kind: ArtifactKind, epoch: usize) -> (r: String)
    ensures
        r@ == checkpoint_path(dir@, kind, epoch as nat),
{
    proof {
        reveal_strlit("/");
        reveal_strlit("-");
    }
    let p = dir.clone().concat("/").concat(kind_str(kind)).concat("-");
    p.concat(to_decimal(epoch).as_str())
}

} // verus!
