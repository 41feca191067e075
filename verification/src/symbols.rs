//! The symbol table: which instruction each label stands for.

use vstd::prelude::*;
use vstd::string::*;
use crate::error::{AssemblyError, ErrorModel};
use crate::text::{same_text, split_whitespace, texts, tokens};

verus! {

/// What the first pass learns: the index that each label is bound to, and
/// how many instructions the program has.
pub struct TableModel {
    pub labels: Map<Seq<char>, nat>,
    pub count: nat,
}

/// A line whose first token is the keyword `label`.
pub open spec fn is_label_line(toks: Seq<Seq<char>>) -> bool {
    toks.len() > 0 && toks[0] == "label"@
}

/// A line that is neither blank nor a label line.
pub open spec fn is_instruction_line(toks: Seq<Seq<char>>) -> bool {
    toks.len() > 0 && toks[0] != "label"@
}

/// The label that a line declares: the token after the keyword.
pub open spec fn declared_label(toks: Seq<Seq<char>>) -> Option<Seq<char>> {
    if is_label_line(toks) && toks.len() > 1 {
        Some(toks[1])
    } else {
        None
    }
}

/// How many of `lines` are instruction lines.
pub open spec fn instruction_count(lines: Seq<Seq<char>>) -> nat
    decreases lines.len(),
{
    if lines.len() == 0 {
        0
    } else if is_instruction_line(tokens(lines.last())) {
        instruction_count(lines.drop_last()) + 1
    } else {
        instruction_count(lines.drop_last())
    }
}

/// The table after one more line. A declaration binds its label to the
/// number of instructions seen so far, and fails if the label is bound
/// already; an instruction line counts; a blank line changes nothing.
pub open spec fn scan_line(table: TableModel, toks: Seq<Seq<char>>) -> Result<
    TableModel,
    ErrorModel,
> {
    if is_instruction_line(toks) {
        Ok(TableModel { labels: table.labels, count: table.count + 1 })
    } else {
        match declared_label(toks) {
            Some(name) => if table.labels.contains_key(name) {
                Err(ErrorModel::DuplicateLabel { label: name })
            } else {
                Ok(TableModel { labels: table.labels.insert(name, table.count), count: table.count })
            },
            None => Ok(table),
        }
    }
}

/// The first pass: the table of a whole program, or its first duplicate
/// label.
pub open spec fn scan(lines: Seq<Seq<char>>) -> Result<TableModel, ErrorModel>
    decreases lines.len(),
{
    if lines.len() == 0 {
        Ok(TableModel { labels: Map::empty(), count: 0 })
    } else {
        match scan(lines.drop_last()) {
            Ok(table) => scan_line(table, tokens(lines.last())),
            Err(e) => Err(e),
        }
    }
}

/// Once the first pass has failed on a prefix, it fails alike on the whole.
pub proof fn lemma_scan_fails_for_good(lines: Seq<Seq<char>>, k: int)
    requires
        0 <= k <= lines.len(),
        scan(lines.take(k)) is Err,
    ensures
        scan(lines) == scan(lines.take(k)),
    decreases lines.len(),
{
    if k == lines.len() {
        assert(lines.take(k) =~= lines);
    } else {
        assert(lines.drop_last().take(k) =~= lines.take(k));
        lemma_scan_fails_for_good(lines.drop_last(), k);
    }
}

/// A table that the first pass completes counts the instruction lines.
pub proof fn lemma_scan_counts(lines: Seq<Seq<char>>)
    requires
        scan(lines) is Ok,
    ensures
        scan(lines)->Ok_0.count == instruction_count(lines),
    decreases lines.len(),
{
    if lines.len() > 0 {
        lemma_scan_counts(lines.drop_last());
    }
}

/// The first pass fails for a duplicate label and for nothing else.
pub proof fn lemma_scan_error(lines: Seq<Seq<char>>)
    requires
        scan(lines) is Err,
    ensures
        scan(lines)->Err_0 is DuplicateLabel,
    decreases lines.len(),
{
    if lines.len() > 0 && scan(lines.drop_last()) is Err {
        lemma_scan_error(lines.drop_last());
    }
}

/// A label is bound to the index of the next instruction: the number of
/// instruction lines before its declaration. So a declaration directly
/// before an instruction names that instruction, and declarations with no
/// instruction between them share an index.
pub proof fn lemma_label_binds_next(lines: Seq<Seq<char>>, k: int)
    requires
        0 <= k < lines.len(),
        scan(lines) is Ok,
        declared_label(tokens(lines[k])) is Some,
    ensures
        scan(lines)->Ok_0.labels.contains_key(declared_label(tokens(lines[k]))->0),
        scan(lines)->Ok_0.labels[declared_label(tokens(lines[k]))->0] == instruction_count(
            lines.take(k),
        ),
    decreases lines.len(),
{
    let prev = lines.drop_last();
    if k == lines.len() - 1 {
        assert(prev =~= lines.take(k));
        lemma_scan_counts(prev);
    } else {
        assert(prev.take(k) =~= lines.take(k));
        assert(prev[k] == lines[k]);
        lemma_label_binds_next(prev, k);
    }
}

/// Two declarations in a row bind their labels to the same index.
pub proof fn lemma_labels_in_a_row(lines: Seq<Seq<char>>, k: int)
    requires
        0 <= k < lines.len() - 1,
        scan(lines) is Ok,
        declared_label(tokens(lines[k])) is Some,
        declared_label(tokens(lines[k + 1])) is Some,
    ensures
        scan(lines)->Ok_0.labels[declared_label(tokens(lines[k]))->0] == scan(
            lines,
        )->Ok_0.labels[declared_label(tokens(lines[k + 1]))->0],
{
    lemma_label_binds_next(lines, k);
    lemma_label_binds_next(lines, k + 1);
    assert(lines.take(k + 1).drop_last() =~= lines.take(k));
    assert(lines.take(k + 1).last() == lines[k]);
}

/// A program that declares one label on two lines fails the first pass with
/// a duplicate label; where no label is declared twice before the second of
/// the two lines, with this label.
pub proof fn lemma_duplicate_label(lines: Seq<Seq<char>>, i: int, j: int)
    requires
        0 <= i < j < lines.len(),
        declared_label(tokens(lines[i])) is Some,
        declared_label(tokens(lines[i])) == declared_label(tokens(lines[j])),
    ensures
        scan(lines) is Err,
        scan(lines)->Err_0 is DuplicateLabel,
        scan(lines.take(j)) is Ok ==> scan(lines) == Err::<TableModel, ErrorModel>(
            ErrorModel::DuplicateLabel { label: declared_label(tokens(lines[i]))->0 },
        ),
{
    let before = lines.take(j);
    if scan(before) is Ok {
        assert(before[i] == lines[i]);
        lemma_label_binds_next(before, i);
        let upto = lines.take(j + 1);
        assert(upto.drop_last() =~= before);
        assert(upto.last() == lines[j]);
        lemma_scan_fails_for_good(lines, j + 1);
    } else {
        lemma_scan_fails_for_good(lines, j);
    }
    lemma_scan_error(lines);
}

/// No two of `names` hold the same text.
spec fn distinct_names(names: Seq<String>) -> bool {
    forall|i: int, j: int| 0 <= i < j < names.len() ==> names[i]@ != names[j]@
}

/// The map that parallel sequences of names and indices stand for.
spec fn labels_of(names: Seq<String>, indices: Seq<usize>) -> Map<Seq<char>, nat> {
    Map::new(
        |k: Seq<char>| exists|i: int| 0 <= i < names.len() && names[i]@ == k,
        |k: Seq<char>| indices[choose|i: int| 0 <= i < names.len() && names[i]@ == k] as nat,
    )
}

/// Where no name occurs twice, each name leads to the index beside it.
proof fn lemma_labels_at(names: Seq<String>, indices: Seq<usize>, i: int)
    requires
        distinct_names(names),
        names.len() == indices.len(),
        0 <= i < names.len(),
    ensures
        labels_of(names, indices).contains_key(names[i]@),
        labels_of(names, indices)[names[i]@] == indices[i],
{
    let k = names[i]@;
    let j = choose|j: int| 0 <= j < names.len() && names[j]@ == k;
    assert(j == i) by {
        if j < i {
            assert(names[j]@ != names[i]@);
        } else if i < j {
            assert(names[i]@ != names[j]@);
        }
    }
}

/// Appending a name that is not bound yet is an insertion into the map.
proof fn lemma_labels_push(names: Seq<String>, indices: Seq<usize>, name: String, index: usize)
    requires
        distinct_names(names),
        names.len() == indices.len(),
        !labels_of(names, indices).contains_key(name@),
    ensures
        distinct_names(names.push(name)),
        labels_of(names.push(name), indices.push(index)) == labels_of(names, indices).insert(
            name@,
            index as nat,
        ),
{
    let names2 = names.push(name);
    let indices2 = indices.push(index);
    assert forall|i: int, j: int| 0 <= i < j < names2.len() implies names2[i]@ != names2[j]@ by {
        if j == names.len() {
            assert(names[i]@ != name@);
        }
    }
    let a = labels_of(names2, indices2);
    let b = labels_of(names, indices).insert(name@, index as nat);
    assert forall|k: Seq<char>| a.contains_key(k) <==> b.contains_key(k) by {
        if a.contains_key(k) {
            let i = choose|i: int| 0 <= i < names2.len() && names2[i]@ == k;
            if i < names.len() {
                assert(names[i]@ == k);
            }
        }
        if b.contains_key(k) {
            if k == name@ {
                assert(names2[names.len() as int]@ == k);
            } else {
                let i = choose|i: int| 0 <= i < names.len() && names[i]@ == k;
                assert(names2[i]@ == k);
            }
        }
    }
    assert forall|k: Seq<char>| a.contains_key(k) implies a[k] == b[k] by {
        let i = choose|i: int| 0 <= i < names2.len() && names2[i]@ == k;
        lemma_labels_at(names2, indices2, i);
        if i < names.len() {
            lemma_labels_at(names, indices, i);
        }
    }
    assert(a =~= b);
}

/// The place of `name` among `names`.
fn find_name(names: &Vec<String>, name: &str) -> (r: Option<usize>)
    ensures
        match r {
            Some(i) => i < names.len() && names@[i as int]@ == name@,
            None => forall|i: int| 0 <= i < names.len() ==> names@[i]@ != name@,
        },
{
    let mut i: usize = 0;
    while i < names.len()
        invariant
            i <= names.len(),
            forall|k: int| 0 <= k < i ==> names@[k]@ != name@,
        decreases names.len() - i,
    {
        if same_text(names[i].as_str(), name) {
            return Some(i);
        }
        i += 1;
    }
    None
}

/// The product of the first pass. Labels are case-sensitive and each is
/// bound once.
pub struct SymbolTable {
    names: Vec<String>,
    indices: Vec<usize>,
    count: usize,
}

impl View for SymbolTable {
    type V = TableModel;

    closed spec fn view(&self) -> TableModel {
        TableModel { labels: labels_of(self.names@, self.indices@), count: self.count as nat }
    }
}

impl SymbolTable {
    #[verifier::type_invariant]
    spec fn well_formed(&self) -> bool {
        &&& self.names.len() == self.indices.len()
        &&& distinct_names(self.names@)
    }

    /// The number of instructions in the program.
    pub fn instruction_count(&self) -> (r: usize)
        ensures
            r == self@.count,
    {
        self.count
    }

    /// The index that `name` is bound to.
    pub fn lookup(&self, name: &str) -> (r: Option<usize>)
        ensures
            r is Some <==> self@.labels.contains_key(name@),
            r matches Some(index) ==> self@.labels[name@] == index,
    {
        proof {
            use_type_invariant(self);
        }
        match find_name(&self.names, name) {
            Some(i) => {
                proof {
                    lemma_labels_at(self.names@, self.indices@, i as int);
                }
                Some(self.indices[i])
            },
            None => None,
        }
    }

    /// Runs the first pass over `lines`.
    pub fn build(lines: &Vec<String>) -> (r: Result<SymbolTable, AssemblyError>)
        ensures
            match r {
                Ok(table) => scan(texts(lines@)) == Ok::<TableModel, ErrorModel>(table@),
                Err(e) => scan(texts(lines@)) == Err::<TableModel, ErrorModel>(e@),
            },
    {
        let mut names: Vec<String> = Vec::new();
        let mut indices: Vec<usize> = Vec::new();
        let mut count: usize = 0;
        let ghost all = texts(lines@);
        let mut i: usize = 0;
        assert(all.take(0) =~= Seq::<Seq<char>>::empty());
        assert(labels_of(names@, indices@) =~= Map::<Seq<char>, nat>::empty());
        while i < lines.len()
            invariant
                i <= lines.len(),
                all == texts(lines@),
                count <= i,
                names.len() == indices.len(),
                distinct_names(names@),
                scan(all.take(i as int)) == Ok::<TableModel, ErrorModel>(
                    TableModel { labels: labels_of(names@, indices@), count: count as nat },
                ),
            decreases lines.len() - i,
        {
            let parts = split_whitespace(lines[i].as_str());
            proof {
                assert(all.take(i + 1).drop_last() =~= all.take(i as int));
                assert(all.take(i + 1).last() == lines@[i as int]@);
                reveal_strlit("label");
            }
            if parts.len() > 0 {
                assert(texts(parts@)[0] == parts@[0]@);
                if same_text(parts[0].as_str(), "label") {
                    if parts.len() > 1 {
                        assert(texts(parts@)[1] == parts@[1]@);
                        match find_name(&names, parts[1].as_str()) {
                            Some(at) => {
                                proof {
                                    lemma_labels_at(names@, indices@, at as int);
                                    lemma_scan_fails_for_good(all, i + 1);
                                }
                                return Err(AssemblyError::DuplicateLabel { label: parts[1].clone() });
                            },
                            None => {
                                let name = parts[1].clone();
                                proof {
                                    lemma_labels_push(names@, indices@, name, count);
                                }
                                names.push(name);
                                indices.push(count);
                            },
                        }
                    }
                } else {
                    count += 1;
                }
            }
            i += 1;
        }
        assert(all.take(lines.len() as int) =~= all);
        Ok(SymbolTable { names, indices, count })
    }
}

} // verus!
