use crate::utils::command_runner::{
    arg_texts, completed, invocation, lemma_next_step, lemma_no_steps, ran_until_failure,
    run_record, snarkjs, CommandRunner, Invocation, RunRecord,
};
use crate::utils::filesystem_operations::{file_op_record, FileOp, FileOpRecord, FileSystemOps};
use crate::utils::json::{
    is_plain_text, json_array_item_texts, json_array_items, json_object_of_objects,
    json_string_object, quoted, string_members_text, text_less,
    lemma_pairs_map, object_of_objects_text, objects_map, pairs_map, string_object_text,
};
use vstd::prelude::*;

verus! {

/// The value of a hexadecimal digit, either case.
pub open spec fn hex_digit_value(c: char) -> Option<int> {
    if '0' <= c && c <= '9' {
        Some(c as int - '0' as int)
    } else if 'a' <= c && c <= 'f' {
        Some(c as int - 'a' as int + 10)
    } else if 'A' <= c && c <= 'F' {
        Some(c as int - 'A' as int + 10)
    } else {
        None
    }
}

/// Hexadecimal digits, possibly with `_` between them, led by a digit.
pub open spec fn is_hex_magnitude(s: Seq<char>) -> bool {
    &&& s.len() > 0
    &&& s[0] != '_'
    &&& forall|i: int| 0 <= i < s.len() ==> (#[trigger] hex_digit_value(s[i])) is Some || s[i] == '_'
}

/// The number that hexadecimal digits spell, `_` being skipped.
pub open spec fn hex_magnitude(s: Seq<char>) -> int
    decreases s.len(),
{
    if s.len() == 0 {
        0
    } else if s.last() == '_' {
        hex_magnitude(s.drop_last())
    } else {
        hex_magnitude(s.drop_last()) * 16 + hex_digit_value(s.last()).unwrap_or(0)
    }
}

/// A sign that is not followed by another `+`.
pub open spec fn leads_with_sign(s: Seq<char>, sign: char) -> bool {
    s.len() > 0 && s[0] == sign && !(s.len() > 1 && s[1] == '+')
}

/// The integer written in hexadecimal in `s`: an optional sign, then digits
/// that may be separated by `_`.
pub open spec fn hex_integer(s: Seq<char>) -> Option<int> {
    if leads_with_sign(s, '-') {
        if is_hex_magnitude(s.skip(1)) {
            Some(-hex_magnitude(s.skip(1)))
        } else {
            None
        }
    } else if leads_with_sign(s, '+') {
        if is_hex_magnitude(s.skip(1)) {
            Some(hex_magnitude(s.skip(1)))
        } else {
            None
        }
    } else if is_hex_magnitude(s) {
        Some(hex_magnitude(s))
    } else {
        None
    }
}

pub open spec fn decimal_digit(d: int) -> char {
    (d + '0' as int) as char
}

/// The decimal digits of `n`, without leading zeros.
pub open spec fn decimal_digits(n: nat) -> Seq<char>
    decreases n,
{
    if n < 10 {
        seq![decimal_digit(n as int)]
    } else {
        decimal_digits(n / 10).push(decimal_digit((n % 10) as int))
    }
}

/// `n` in decimal, with a `-` when it is negative.
pub open spec fn decimal_text(n: int) -> Seq<char> {
    if n < 0 {
        seq!['-'] + decimal_digits((-n) as nat)
    } else {
        decimal_digits(n as nat)
    }
}

/// `s` without the `0x` prefixes it starts with, however many.
pub open spec fn without_hex_prefixes(s: Seq<char>) -> Seq<char>
    decreases s.len(),
{
    if s.len() >= 2 && s[0] == '0' && s[1] == 'x' {
        without_hex_prefixes(s.skip(2))
    } else {
        s
    }
}

/// Relies on num_bigint's `BigInt::parse_bytes` with radix 16, whose result is
/// then written out by `BigInt`'s `Display`: the decimal form of the
/// hexadecimal integer in `digits`, or `None` where `digits` is not one.
#[verifier::external_body]
fn hex_to_decimal(digits: &str) -> (r: Option<String>)
    ensures
        match r {
            Some(d) => hex_integer(digits@) matches Some(n) && d@ == decimal_text(n),
            None => hex_integer(digits@) is None,
        },
{
    num_bigint::BigInt::parse_bytes(digits.as_bytes(), 16).map(|n| n.to_string())
}

/// `address` without its leading `0x` prefixes.
pub fn strip_hex_prefixes(address: &str) -> (r: &str)
    ensures
        r@ == without_hex_prefixes(address@),
{
    let n = address.unicode_len();
    let mut i: usize = 0;
    assert(address@.skip(0) =~= address@);
    while n - i >= 2 && address.get_char(i) == '0' && address.get_char(i + 1) == 'x'
        invariant
            i <= n,
            n == address@.len(),
            without_hex_prefixes(address@) == without_hex_prefixes(address@.skip(i as int)),
        decreases n - i,
    {
        assert(address@.skip(i as int).skip(2) =~= address@.skip(i + 2));
        i = i + 2;
    }
    let rest = address.substring_char(i, n);
    assert(rest@ =~= address@.skip(i as int));
    proof {
        if rest@.len() >= 2 {
            assert(rest@[0] == address@[i as int] && rest@[1] == address@[i + 1]);
        }
    }
    rest
}

/// The decimal form of a hexadecimal address such as `0x1234abcd`.
pub fn address_to_decimal(address_hex: &str) -> (r: Result<String, String>)
    ensures
        match hex_integer(without_hex_prefixes(address_hex@)) {
            Some(n) => r matches Ok(d) && d@ == decimal_text(n),
            None => r matches Err(e) && e@ == "Failed to parse address to decimal"@,
        },
{
    match hex_to_decimal(strip_hex_prefixes(address_hex)) {
        Some(d) => Ok(d),
        None => Err("Failed to parse address to decimal".to_string()),
    }
}

/// The file that the witness generator reads its input from.
pub const WITNESS_INPUT_FILE: &'static str = "input.json";

/// The witness generator's input for an address of decimal form `address_dec`:
/// the address, private and public.
pub open spec fn witness_input_json(address_dec: Seq<char>) -> Seq<char> {
    json_string_object(
        pairs_map(
            seq![("addressInDecimal"@, address_dec), ("sameAddressButPublic"@, address_dec)],
        ),
    )
}

/// The witness generator's input, written out, for `address_dec` in plain text.
pub open spec fn witness_input_text(address_dec: Seq<char>) -> Seq<char> {
    "{"@ + quoted("addressInDecimal"@) + ":"@ + quoted(address_dec) + ","@ + quoted(
        "sameAddressButPublic"@,
    ) + ":"@ + quoted(address_dec) + "}"@
}

/// The JSON text that the witness generator reads for an address of decimal
/// form `address_dec`.
pub fn witness_input(address_dec: &String) -> (r: String)
    ensures
        r@ == witness_input_json(address_dec@),
        is_plain_text(address_dec@) ==> r@ == witness_input_text(address_dec@),
{
    let mut fields: Vec<(String, String)> = Vec::new();
    fields.push(("addressInDecimal".to_string(), address_dec.clone()));
    fields.push(("sameAddressButPublic".to_string(), address_dec.clone()));
    assert(fields.deep_view() =~= seq![
        ("addressInDecimal"@, address_dec@),
        ("sameAddressButPublic"@, address_dec@),
    ]);
    proof {
        reveal_strlit("addressInDecimal");
        reveal_strlit("sameAddressButPublic");
        let f = fields.deep_view();
        assert(is_plain_text("addressInDecimal"@));
        assert(is_plain_text("sameAddressButPublic"@));
        assert(text_less("addressInDecimal"@, "sameAddressButPublic"@));
        assert(f.drop_last() =~= seq![f[0]]);
        assert(string_members_text(f.drop_last()) == quoted(f[0].0) + ":"@ + quoted(f[0].1));
    }
    string_object_text(&fields)
}

/// The decimal form of an integer is plain text.
pub proof fn lemma_decimal_text_plain(n: int)
    ensures
        is_plain_text(decimal_text(n)),
{
    lemma_decimal_digits_plain(if n < 0 { -n } else { n });
    if n < 0 {
        let d = decimal_digits((-n) as nat);
        assert forall|i: int| 0 <= i < (seq!['-'] + d).len() implies ' ' <= #[trigger] (seq!['-'] + d)[i] && (seq!['-'] + d)[i] != '"' && (seq!['-'] + d)[i] != '\\' by {
            if i > 0 {
                assert((seq!['-'] + d)[i] == d[i - 1]);
            }
        }
    }
}

proof fn lemma_decimal_digits_plain(n: int)
    requires
        n >= 0,
    ensures
        is_plain_text(decimal_digits(n as nat)),
        forall|i: int| 0 <= i < decimal_digits(n as nat).len() ==> '0' <= #[trigger] decimal_digits(n as nat)[i] <= '9',
    decreases n,
{
    if n >= 10 {
        lemma_decimal_digits_plain(n / 10);
    }
}

/// The steps that turn `input.json` into a proof: the witness, its export as
/// JSON, and the Groth16 proof with its public signals.
pub open spec fn proof_plan() -> Seq<Invocation> {
    seq![
        invocation("node"@, seq!["generate_witness.js"@, "circuit.wasm"@, "input.json"@, "witness.wtns"@]),
        snarkjs(seq!["wtns"@, "export"@, "json"@, "witness.wtns"@]),
        snarkjs(
            seq![
                "groth16"@,
                "prove"@,
                "circuit_0001.zkey"@,
                "witness.wtns"@,
                "proof.json"@,
                "public.json"@,
            ],
        ),
    ]
}

/// Runs the steps of `proof_plan` one after another and stops at the first
/// that fails, whose error it returns.
pub fn generate_proof<R: CommandRunner>(runner: &mut R) -> (r: Result<(), String>)
    ensures
        ran_until_failure(old(runner).history(), final(runner).history(), proof_plan()),
        r is Ok <==> completed(old(runner).history(), final(runner).history(), proof_plan()),
{
    let ghost before = runner.history();
    let ghost plan = proof_plan();
    proof {
        lemma_no_steps(before, plan);
    }

    let ghost mid = runner.history();
    let args: [&str; 4] = ["generate_witness.js", "circuit.wasm", "input.json", "witness.wtns"];
    let r = runner.run("node", &args);
    proof {
        assert(arg_texts(args@) =~= plan[0].args);
        lemma_next_step(before, mid, plan, 0, runner.history().last());
    }
    if r.is_err() {
        return r;
    }

    let ghost mid = runner.history();
    let args: [&str; 4] = ["wtns", "export", "json", "witness.wtns"];
    let r = runner.run("snarkjs", &args);
    proof {
        assert(arg_texts(args@) =~= plan[1].args);
        lemma_next_step(before, mid, plan, 1, runner.history().last());
    }
    if r.is_err() {
        return r;
    }

    let ghost mid = runner.history();
    let args: [&str; 6] = [
        "groth16",
        "prove",
        "circuit_0001.zkey",
        "witness.wtns",
        "proof.json",
        "public.json",
    ];
    let r = runner.run("snarkjs", &args);
    proof {
        assert(arg_texts(args@) =~= plan[2].args);
        lemma_next_step(before, mid, plan, 2, runner.history().last());
    }
    r
}

/// Writes the witness generator's input for an address into `input.json` and
/// returns that input. Nothing is written for an address that is not
/// hexadecimal.
pub fn write_witness_input<F: FileSystemOps>(file_ops: &mut F, address_hex: &str) -> (r: Result<
    String,
    String,
>)
    ensures
        match hex_integer(without_hex_prefixes(address_hex@)) {
            None => {
                &&& r matches Err(e) && e@ == "Failed to parse address to decimal"@
                &&& final(file_ops).file_history() == old(file_ops).file_history()
            },
            Some(n) => {
                let written = final(file_ops).file_history().last();
                &&& final(file_ops).file_history().len() == old(file_ops).file_history().len() + 1
                &&& final(file_ops).file_history().drop_last() == old(file_ops).file_history()
                &&& written.op == (FileOp::Write {
                    path: WITNESS_INPUT_FILE@,
                    content: witness_input_json(decimal_text(n)),
                })
                &&& written.succeeded == r is Ok
                &&& r matches Ok(t) ==> t@ == witness_input_json(decimal_text(n))
                &&& r matches Ok(t) ==> t@ == witness_input_text(decimal_text(n))
            },
        },
{
    let address_dec = address_to_decimal(address_hex)?;
    proof {
        if let Some(n) = hex_integer(without_hex_prefixes(address_hex@)) {
            lemma_decimal_text_plain(n);
        }
    }
    let input = witness_input(&address_dec);
    let ghost before = file_ops.file_history();
    let written = file_ops.write_to_file(WITNESS_INPUT_FILE, &input);
    assert(file_ops.file_history().drop_last() =~= before);
    written?;
    Ok(input)
}

/// `output` inside square brackets: the calldata that `snarkjs zkesc` prints
/// is its four parts separated by commas.
pub open spec fn calldata_array(output: Seq<char>) -> Seq<char> {
    "["@ + output + "]"@
}

/// The names under which a proof's parts are kept, in the order in which the
/// calldata gives them.
pub open spec fn proof_part_names() -> Seq<Seq<char>> {
    seq!["pA"@, "pB"@, "pC"@, "input"@]
}

/// Item `k` of `items`, or `null` where there is none.
pub open spec fn item_or_null(items: Seq<Seq<char>>, k: int) -> Seq<char> {
    if k < items.len() {
        items[k]
    } else {
        "null"@
    }
}

/// A proof's entry: the first four items of the calldata, as JSON texts, under
/// the names of `proof_part_names`.
pub open spec fn proof_entry_members(items: Seq<Seq<char>>) -> Seq<(Seq<char>, Seq<char>)> {
    seq![
        ("pA"@, item_or_null(items, 0)),
        ("pB"@, item_or_null(items, 1)),
        ("pC"@, item_or_null(items, 2)),
        ("input"@, item_or_null(items, 3)),
    ]
}

/// The members of a proof's entry made of `items`, JSON texts in order.
pub fn proof_entry_fields(items: Vec<String>) -> (r: Vec<(String, String)>)
    ensures
        r.deep_view() == proof_entry_members(items.deep_view()),
{
    let names: [&str; 4] = ["pA", "pB", "pC", "input"];
    let ghost texts = items.deep_view();
    let mut r: Vec<(String, String)> = Vec::new();
    let mut k: usize = 0;
    while k < 4
        invariant
            k <= 4,
            r@.len() == k,
            texts == items.deep_view(),
            arg_texts(names@) == proof_part_names(),
            forall|j: int|
                0 <= j < k ==> (#[trigger] r@[j]).deep_view() == proof_entry_members(texts)[j],
        decreases 4 - k,
    {
        let value = if k < items.len() {
            items[k].clone()
        } else {
            "null".to_string()
        };
        assert(names@[k as int]@ == proof_part_names()[k as int]);
        r.push((names[k].to_string(), value));
        k = k + 1;
    }
    assert(r.deep_view() =~= proof_entry_members(texts));
    r
}

/// A proof's entry, made from what `snarkjs zkesc` printed: `Err` where that is
/// not the body of a JSON array.
pub fn proof_entry(calldata_output: &str) -> (r: Result<Vec<(String, String)>, String>)
    ensures
        match json_array_item_texts(calldata_array(calldata_output@)) {
            Some(items) => r matches Ok(m) && m.deep_view() == proof_entry_members(items),
            None => r is Err,
        },
{
    let mut text = "[".to_string();
    text.append(calldata_output);
    text.append("]");
    let items = json_array_items(text.as_str())?;
    Ok(proof_entry_fields(items))
}

/// The file that the proofs for the addresses of `file_name` are written to.
pub open spec fn proofs_file_name(file_name: Seq<char>) -> Seq<char> {
    file_name + ".proofs.json"@
}

/// The name of the file of proofs for the addresses of `file_name`.
pub fn proofs_output_file(file_name: &str) -> (r: String)
    ensures
        r@ == proofs_file_name(file_name@),
{
    let mut r = file_name.to_string();
    r.append(".proofs.json");
    r
}

/// The file of proofs for `entries`, pairs of an address and its entry: a JSON
/// object with one member per address, whose value is the object of the
/// entry's members. Of an address met twice, the later entry stands.
pub open spec fn proofs_json(entries: Seq<(Seq<char>, Seq<(Seq<char>, Seq<char>)>)>) -> Option<
    Seq<char>,
> {
    json_object_of_objects(entries)
}

/// The text of the file of proofs for `entries`; `Err` where an entry holds a
/// member that is not JSON text.
pub fn proofs_document(entries: &Vec<(String, Vec<(String, String)>)>) -> (r: Result<String, String>)
    ensures
        match proofs_json(entries.deep_view()) {
            Some(t) => r matches Ok(d) && d@ == t,
            None => r is Err,
        },
        entries@.len() == 0 ==> (r matches Ok(d) && d@ == "{}"@),
{
    object_of_objects_text(entries)
}

/// Writes the file of proofs for `entries` next to `file_name`. Nothing is
/// written where the document cannot be made.
pub fn write_proofs<F: FileSystemOps>(
    file_ops: &mut F,
    file_name: &str,
    entries: &Vec<(String, Vec<(String, String)>)>,
) -> (r: Result<(), String>)
    ensures
        match proofs_json(entries.deep_view()) {
            Some(t) => {
                &&& final(file_ops).file_history() == old(file_ops).file_history().push(
                    file_op_record(
                        FileOp::Write { path: proofs_file_name(file_name@), content: t },
                        r is Ok,
                    ),
                )
            },
            None => r is Err && final(file_ops).file_history() == old(file_ops).file_history(),
        },
        entries@.len() == 0 ==> proofs_json(entries.deep_view()) == Some("{}"@),
{
    let path = proofs_output_file(file_name);
    let content = proofs_document(entries)?;
    file_ops.write_to_file(path.as_str(), content.as_str())
}

} // verus!
verus! {

/// Of an address: its witness input written, then its proof steps run, up to
/// the first failure; `ok` when all of that succeeded. Nothing is written or
/// run for an address that is not hexadecimal, nor run once the input could
/// not be written.
pub open spec fn address_proved(
    address: Seq<char>,
    files_before: Seq<FileOpRecord>,
    files_after: Seq<FileOpRecord>,
    runs_before: Seq<RunRecord>,
    runs_after: Seq<RunRecord>,
    ok: bool,
) -> bool {
    match hex_integer(without_hex_prefixes(address)) {
        None => !ok && files_after == files_before && runs_after == runs_before,
        Some(n) => {
            let written = files_after.last();
            &&& files_after.len() == files_before.len() + 1
            &&& files_after.drop_last() == files_before
            &&& written.op == (FileOp::Write {
                path: WITNESS_INPUT_FILE@,
                content: witness_input_json(decimal_text(n)),
            })
            &&& !written.succeeded ==> !ok && runs_after == runs_before
            &&& written.succeeded ==> ran_until_failure(runs_before, runs_after, proof_plan())
            &&& written.succeeded ==> (ok <==> completed(runs_before, runs_after, proof_plan()))
        },
    }
}

/// Writes the witness input for `address_hex`, then runs the proof steps; the
/// input written comes back on success.
pub fn prove_address<R: CommandRunner, F: FileSystemOps>(
    runner: &mut R,
    file_ops: &mut F,
    address_hex: &str,
) -> (r: Result<String, String>)
    ensures
        address_proved(
            address_hex@,
            old(file_ops).file_history(),
            final(file_ops).file_history(),
            old(runner).history(),
            final(runner).history(),
            r is Ok,
        ),
        match r {
            Ok(t) => hex_integer(without_hex_prefixes(address_hex@)) matches Some(n) && t@
                == witness_input_json(decimal_text(n)),
            Err(_) => true,
        },
{
    let input = write_witness_input(file_ops, address_hex)?;
    generate_proof(runner)?;
    Ok(input)
}

/// The making of the proofs for a list of addresses, one address after
/// another: each is proved, then given the calldata of its proof; once all
/// are done, the file of proofs is written. The calldata comes from outside.
pub struct ProofsSession {
    file_name: String,
    addresses: Vec<String>,
    progress: Progress,
}

/// How far a session has gone: the entries made, and whether the next address
/// waits for its calldata.
struct Progress {
    next: usize,
    awaiting: bool,
    entries: Vec<(String, Vec<(String, String)>)>,
}

impl ProofsSession {
    #[verifier::type_invariant]
    spec fn well_formed(&self) -> bool {
        &&& self.progress.next <= self.addresses@.len()
        &&& self.progress.entries@.len() == self.progress.next
        &&& forall|i: int| 0 <= i < self.progress.next ==> (#[trigger] self.progress.entries@[i]).0@ == self.addresses@[i]@
        &&& self.progress.awaiting ==> self.progress.next < self.addresses@.len()
    }

    /// The file that named the addresses.
    pub closed spec fn file_name(&self) -> Seq<char> {
        self.file_name@
    }

    /// The addresses, in the order of the file.
    pub closed spec fn addresses(&self) -> Seq<Seq<char>> {
        self.addresses.deep_view()
    }

    /// How many addresses have their entry.
    pub closed spec fn next(&self) -> int {
        self.progress.next as int
    }

    /// Whether the address at `next` is proved and waits for its calldata.
    pub closed spec fn awaiting(&self) -> bool {
        self.progress.awaiting
    }

    /// The entries made so far, each with its address.
    pub closed spec fn entries(&self) -> Seq<(Seq<char>, Seq<(Seq<char>, Seq<char>)>)> {
        self.progress.entries.deep_view()
    }

    /// The entries follow the addresses, one for each address done.
    pub open spec fn consistent(&self) -> bool {
        &&& 0 <= self.next() <= self.addresses().len()
        &&& self.entries().len() == self.next()
        &&& forall|i: int|
            0 <= i < self.next() ==> (#[trigger] self.entries()[i]).0 == self.addresses()[i]
        &&& self.awaiting() ==> self.next() < self.addresses().len()
    }

    /// A session for `addresses`, read from `file_name`, with nothing done yet.
    pub fn new(file_name: &str, addresses: Vec<String>) -> (r: ProofsSession)
        ensures
            r.file_name() == file_name@,
            r.addresses() == addresses.deep_view(),
            r.next() == 0,
            !r.awaiting(),
            r.consistent(),
    {
        ProofsSession {
            file_name: file_name.to_string(),
            addresses,
            progress: Progress { next: 0, awaiting: false, entries: Vec::new() },
        }
    }

    /// Proves the next address. `Ok(None)` once every address is done;
    /// `Ok(Some(input))`, the witness input written, when the address is proved
    /// and waits for its calldata. A session that already waits refuses.
    pub fn prove_next<R: CommandRunner, F: FileSystemOps>(
        &mut self,
        runner: &mut R,
        file_ops: &mut F,
    ) -> (r: Result<Option<String>, String>)
        ensures
            final(self).consistent(),
            final(self).file_name() == old(self).file_name(),
            final(self).addresses() == old(self).addresses(),
            final(self).next() == old(self).next(),
            final(self).entries() == old(self).entries(),
            old(self).awaiting() ==> {
                &&& r is Err
                &&& final(self).awaiting()
                &&& final(runner).history() == old(runner).history()
                &&& final(file_ops).file_history() == old(file_ops).file_history()
            },
            !old(self).awaiting() && old(self).next() == old(self).addresses().len() ==> {
                &&& r == Ok::<Option<String>, String>(None)
                &&& !final(self).awaiting()
                &&& final(runner).history() == old(runner).history()
                &&& final(file_ops).file_history() == old(file_ops).file_history()
            },
            !old(self).awaiting() && old(self).next() < old(self).addresses().len() ==> {
                &&& address_proved(
                    old(self).addresses()[old(self).next()],
                    old(file_ops).file_history(),
                    final(file_ops).file_history(),
                    old(runner).history(),
                    final(runner).history(),
                    r is Ok,
                )
                &&& r is Ok ==> r->Ok_0 is Some && final(self).awaiting()
                &&& r is Err ==> !final(self).awaiting()
            },
    {
        proof {
            use_type_invariant(&*self);
        }

        if self.progress.awaiting {
            return Err("A proof waits for its calldata".to_string());
        }
        if self.progress.next >= self.addresses.len() {
            return Ok(None);
        }
        let input = prove_address(runner, file_ops, self.addresses[self.progress.next].as_str())?;
        self.progress.awaiting = true;
        proof {
            use_type_invariant(&*self);
        }
        Ok(Some(input))
    }
}


impl ProofsSession {
    /// Gives the address that waits the calldata of its proof, as `snarkjs
    /// zkesc` printed it, and makes its entry. Refused where no address waits,
    /// or where the calldata is not the body of a JSON array.
    pub fn record_calldata(&mut self, calldata_output: &str) -> (r: Result<(), String>)
        ensures
            final(self).consistent(),
            final(self).file_name() == old(self).file_name(),
            final(self).addresses() == old(self).addresses(),
            !old(self).awaiting() ==> {
                &&& r is Err
                &&& final(self).next() == old(self).next()
                &&& final(self).entries() == old(self).entries()
                &&& !final(self).awaiting()
            },
            old(self).awaiting() ==> match json_array_item_texts(calldata_array(calldata_output@)) {
                Some(items) => {
                    &&& r is Ok
                    &&& final(self).entries() == old(self).entries().push(
                        (old(self).addresses()[old(self).next()], proof_entry_members(items)),
                    )
                    &&& final(self).next() == old(self).next() + 1
                    &&& !final(self).awaiting()
                },
                None => {
                    &&& r is Err
                    &&& final(self).next() == old(self).next()
                    &&& final(self).entries() == old(self).entries()
                    &&& final(self).awaiting()
                },
            },
    {
        proof {
            use_type_invariant(&*self);
        }
        if !self.progress.awaiting {
            return Err("No proof waits for calldata".to_string());
        }
        let entry = proof_entry(calldata_output)?;
        let address = self.addresses[self.progress.next].clone();
        let ghost before = self.progress.entries.deep_view();
        let ghost members = entry.deep_view();
        proof {
            use_type_invariant(&*self);
        }
        let next = self.progress.next;
        let count = self.addresses.len();
        assert(next < count);
        let mut progress = Progress { next: 0, awaiting: false, entries: Vec::new() };
        std::mem::swap(&mut progress, &mut self.progress);
        progress.entries.push((address, entry));
        progress.next = next + 1;
        progress.awaiting = false;
        assert(progress.entries.deep_view() =~= before.push((self.addresses@[progress.next - 1]@, members)));
        std::mem::swap(&mut progress, &mut self.progress);
        proof {
            use_type_invariant(&*self);
        }
        Ok(())
    }

    /// The name of the file that the proofs go to.
    pub fn output_file(&self) -> (r: String)
        ensures
            r@ == proofs_file_name(self.file_name()),
    {
        proofs_output_file(self.file_name.as_str())
    }

    /// Writes the file of proofs, once every address has its entry.
    pub fn finish<F: FileSystemOps>(&self, file_ops: &mut F) -> (r: Result<(), String>)
        ensures
            self.awaiting() || self.next() < self.addresses().len() ==> {
                &&& r is Err
                &&& final(file_ops).file_history() == old(file_ops).file_history()
            },
            !self.awaiting() && self.next() == self.addresses().len() ==> match proofs_json(
                self.entries(),
            ) {
                Some(t) => final(file_ops).file_history() == old(file_ops).file_history().push(
                    file_op_record(
                        FileOp::Write { path: proofs_file_name(self.file_name()), content: t },
                        r is Ok,
                    ),
                ),
                None => r is Err && final(file_ops).file_history() == old(
                    file_ops,
                ).file_history(),
            },
            !self.awaiting() && self.addresses().len() == 0 ==> proofs_json(self.entries()) == Some(
                "{}"@,
            ),
    {
        proof {
            use_type_invariant(self);
        }
        if self.progress.awaiting || self.progress.next < self.addresses.len() {
            return Err("Not every address has its proof".to_string());
        }
        write_proofs(file_ops, self.file_name.as_str(), &self.progress.entries)
    }
}

/// Once every address of a session has its entry, the file of proofs has a
/// member for exactly the addresses of the list; under an address met more
/// than once stands the entry made for its last occurrence.
pub proof fn lemma_finished_document(s: ProofsSession)
    requires
        s.consistent(),
        s.next() == s.addresses().len(),
    ensures
        forall|a: Seq<char>|
            #[trigger] objects_map(s.entries()).contains_key(a) <==> s.addresses().contains(a),
        forall|i: int|
            0 <= i < s.addresses().len() && (forall|j: int|
                i < j < s.addresses().len() ==> (#[trigger] s.addresses()[j]) != s.addresses()[i])
                ==> objects_map(s.entries())[(#[trigger] s.addresses()[i])] == pairs_map(
                s.entries()[i].1,
            ),
{
    let entries = s.entries();
    let addresses = s.addresses();
    let objects = entries.map_values(
        |e: (Seq<char>, Seq<(Seq<char>, Seq<char>)>)| (e.0, pairs_map(e.1)),
    );
    lemma_pairs_map(objects);
    assert forall|i: int| 0 <= i < objects.len() implies (#[trigger] objects[i]).0 == addresses[i] by {
        assert(entries[i].0 == addresses[i]);
    }
    assert forall|a: Seq<char>|
        #[trigger] objects_map(entries).contains_key(a) <==> addresses.contains(a) by {
        if addresses.contains(a) {
            let i = choose|i: int| 0 <= i < addresses.len() && addresses[i] == a;
            assert(objects[i].0 == a);
        }
        if objects_map(entries).contains_key(a) {
            let i = choose|i: int| 0 <= i < objects.len() && (#[trigger] objects[i]).0 == a;
            assert(addresses[i] == a);
        }
    }
    assert forall|i: int|
        0 <= i < addresses.len() && (forall|j: int|
            i < j < addresses.len() ==> (#[trigger] addresses[j]) != addresses[i])
            implies objects_map(entries)[(#[trigger] addresses[i])] == pairs_map(entries[i].1) by {
        assert forall|j: int| i < j < objects.len() implies (#[trigger] objects[j]).0 != objects[i].0 by {
            assert(addresses[j] != addresses[i]);
        }
        assert(objects[i].0 == addresses[i]);
    }
}

/// A proof's entry is the object whose members are exactly `pA`, `pB`, `pC`
/// and `input`, holding the items 0 to 3, `null` for an item that is missing.
pub proof fn lemma_proof_entry_object(items: Seq<Seq<char>>)
    ensures
        pairs_map(proof_entry_members(items)) == map![
            "pA"@ => item_or_null(items, 0),
            "pB"@ => item_or_null(items, 1),
            "pC"@ => item_or_null(items, 2),
            "input"@ => item_or_null(items, 3),
        ],
{
    let m = proof_entry_members(items);
    let a = ("pA"@, item_or_null(items, 0));
    let b = ("pB"@, item_or_null(items, 1));
    let c = ("pC"@, item_or_null(items, 2));
    let d = ("input"@, item_or_null(items, 3));
    assert(seq![a].drop_last() =~= Seq::<(Seq<char>, Seq<char>)>::empty());
    assert(seq![a, b].drop_last() =~= seq![a]);
    assert(seq![a, b, c].drop_last() =~= seq![a, b]);
    assert(m.drop_last() =~= seq![a, b, c]);
    assert(pairs_map(Seq::<(Seq<char>, Seq<char>)>::empty()) == Map::<Seq<char>, Seq<char>>::empty());
    assert(pairs_map(seq![a]) == Map::<Seq<char>, Seq<char>>::empty().insert(a.0, a.1));
    assert(pairs_map(seq![a, b]) == pairs_map(seq![a]).insert(b.0, b.1));
    assert(pairs_map(seq![a, b, c]) == pairs_map(seq![a, b]).insert(c.0, c.1));
    assert(pairs_map(m) == pairs_map(seq![a, b, c]).insert(d.0, d.1));
    assert(pairs_map(proof_entry_members(items)) =~= map![
        "pA"@ => item_or_null(items, 0),
        "pB"@ => item_or_null(items, 1),
        "pC"@ => item_or_null(items, 2),
        "input"@ => item_or_null(items, 3),
    ]);
}

} // verus!
