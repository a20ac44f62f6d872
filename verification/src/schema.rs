//! The schema of the consolidated `companies` table.

use vstd::prelude::*;

verus! {

/// The type of a column.
#[derive(Debug, PartialEq, Eq)]
pub enum DataKind {
    Utf8,
    Int32,
    Float64,
    Boolean,
    Date32,
    /// A struct with the given fields.
    Struct(Vec<Field>),
    /// A list whose items are described by the field (named `item`).
    List(Box<Field>),
}

/// A named, typed column or struct field.
#[derive(Debug, PartialEq, Eq)]
pub struct Field {
    pub name: &'static str,
    pub kind: DataKind,
    pub nullable: bool,
}

/// Whether `f` is a field `name` of the plain type `kind`.
pub open spec fn is_plain(f: Field, name: Seq<char>, kind: DataKind, nullable: bool) -> bool {
    f.name@ == name && f.kind == kind && f.nullable == nullable
}

/// Whether `fs` are nullable fields with the given names and plain types.
pub open spec fn are_plain(fs: Seq<Field>, names: Seq<Seq<char>>, kinds: Seq<DataKind>) -> bool {
    fs.len() == names.len() && names.len() == kinds.len() && forall|i: int|
        0 <= i < fs.len() ==> is_plain(#[trigger] fs[i], names[i], kinds[i], true)
}

/// Whether `fs` are nullable text fields named `names`, in order.
pub open spec fn are_text_fields(fs: Seq<Field>, names: Seq<Seq<char>>) -> bool {
    fs.len() == names.len() && forall|i: int|
        0 <= i < fs.len() ==> is_plain(#[trigger] fs[i], names[i], DataKind::Utf8, true)
}

/// Whether `k` is the struct `{codigo: text, descricao: text}` that pairs a
/// code with its description.
pub open spec fn is_codigo_descricao(k: DataKind) -> bool {
    k matches DataKind::Struct(fs) && are_plain(
        fs@,
        seq!["codigo"@, "descricao"@],
        seq![DataKind::Utf8, DataKind::Utf8],
    )
}

/// Whether `k` is the address struct.
pub open spec fn is_endereco(k: DataKind) -> bool {
    k matches DataKind::Struct(fs) && are_plain(
        fs@,
        seq!["tipo_logradouro"@, "logradouro"@, "numero"@, "complemento"@, "bairro"@, "cep"@],
        seq![DataKind::Utf8, DataKind::Utf8, DataKind::Utf8, DataKind::Utf8, DataKind::Utf8, DataKind::Utf8],
    )
}

/// Whether `k` is the municipality struct (Receita code, IBGE code, name).
pub open spec fn is_municipio(k: DataKind) -> bool {
    k matches DataKind::Struct(fs) && are_plain(
        fs@,
        seq!["codigo"@, "codigo_ibge"@, "descricao"@],
        seq![DataKind::Utf8, DataKind::Utf8, DataKind::Utf8],
    )
}

/// Whether `k` is the partner (`socio`) struct.
pub open spec fn is_socio(k: DataKind) -> bool {
    k matches DataKind::Struct(fs) && are_plain(
        fs@,
        seq!["identificador_de_socio"@, "nome_socio"@, "cnpj_cpf_do_socio"@, "codigo_qualificacao_socio"@, "qualificacao_socio"@, "data_entrada_sociedade"@, "codigo_pais"@, "pais"@, "cpf_representante_legal"@, "nome_representante_legal"@, "codigo_qualificacao_representante_legal"@, "qualificacao_representante_legal"@, "codigo_faixa_etaria"@, "faixa_etaria"@],
        seq![DataKind::Int32, DataKind::Utf8, DataKind::Utf8, DataKind::Int32, DataKind::Utf8, DataKind::Date32, DataKind::Utf8, DataKind::Utf8, DataKind::Utf8, DataKind::Utf8, DataKind::Int32, DataKind::Utf8, DataKind::Int32, DataKind::Utf8],
    )
}

/// Whether `k` is a list of nullable items whose type satisfies `item`.
pub open spec fn is_list_of(k: DataKind, item: spec_fn(DataKind) -> bool) -> bool {
    k matches DataKind::List(f) && f.name@ == "item"@ && f.nullable && item(f.kind)
}

/// The columns of the `companies` table: name, type and nullability.
pub open spec fn is_companies_schema(fs: Seq<Field>) -> bool {
    &&& fs.len() == 28
    &&& is_plain(fs[0], "cnpj"@, DataKind::Utf8, false)
    &&& is_plain(fs[1], "cnpj_raiz"@, DataKind::Utf8, false)
    &&& is_plain(fs[2], "razao_social"@, DataKind::Utf8, true)
    &&& is_plain(fs[3], "nome_fantasia"@, DataKind::Utf8, true)
    &&& is_plain(fs[4], "situacao_cadastral"@, DataKind::Utf8, true)
    &&& is_plain(fs[5], "data_situacao_cadastral"@, DataKind::Date32, true)
    &&& fs[6].name@ == "motivo_situacao_cadastral"@ && fs[6].nullable == true && is_codigo_descricao(fs[6].kind)
    &&& is_plain(fs[7], "data_inicio_atividade"@, DataKind::Date32, true)
    &&& fs[8].name@ == "cnae_fiscal"@ && fs[8].nullable == true && is_codigo_descricao(fs[8].kind)
    &&& fs[9].name@ == "cnaes_secundarios"@ && fs[9].nullable == true && is_list_of(fs[9].kind, |k: DataKind| is_codigo_descricao(k))
    &&& fs[10].name@ == "natureza_juridica"@ && fs[10].nullable == true && is_codigo_descricao(fs[10].kind)
    &&& fs[11].name@ == "qualificacao_responsavel"@ && fs[11].nullable == true && is_codigo_descricao(fs[11].kind)
    &&& is_plain(fs[12], "capital_social"@, DataKind::Float64, true)
    &&& fs[13].name@ == "porte"@ && fs[13].nullable == true && is_codigo_descricao(fs[13].kind)
    &&& is_plain(fs[14], "ente_federativo_responsavel"@, DataKind::Utf8, true)
    &&& is_plain(fs[15], "uf"@, DataKind::Utf8, false)
    &&& fs[16].name@ == "municipio"@ && fs[16].nullable == true && is_municipio(fs[16].kind)
    &&& fs[17].name@ == "pais"@ && fs[17].nullable == true && is_codigo_descricao(fs[17].kind)
    &&& fs[18].name@ == "endereco"@ && fs[18].nullable == true && is_endereco(fs[18].kind)
    &&& is_plain(fs[19], "email"@, DataKind::Utf8, true)
    &&& fs[20].name@ == "telefones"@ && fs[20].nullable == true && is_list_of(fs[20].kind, |k: DataKind| k == DataKind::Utf8)
    &&& fs[21].name@ == "qsa"@ && fs[21].nullable == true && is_list_of(fs[21].kind, |k: DataKind| is_socio(k))
    &&& is_plain(fs[22], "opcao_pelo_simples"@, DataKind::Boolean, true)
    &&& is_plain(fs[23], "data_opcao_pelo_simples"@, DataKind::Date32, true)
    &&& is_plain(fs[24], "data_exclusao_do_simples"@, DataKind::Date32, true)
    &&& is_plain(fs[25], "opcao_pelo_mei"@, DataKind::Boolean, true)
    &&& is_plain(fs[26], "data_opcao_pelo_mei"@, DataKind::Date32, true)
    &&& is_plain(fs[27], "data_exclusao_do_mei"@, DataKind::Date32, true)
}

/// A field of the plain type `kind`.
fn plain(name: &'static str, kind: DataKind, nullable: bool) -> (f: Field)
    ensures
        f.name == name && f.kind == kind && f.nullable == nullable,
{
    Field { name, kind, nullable }
}

/// Nullable text fields with the given names.
pub(crate) fn text_fields(names: &[&'static str]) -> (r: Vec<Field>)
    ensures
        r@.len() == names@.len(),
        forall|i: int| 0 <= i < r@.len() ==> #[trigger] r@[i].name == names@[i] && r@[i].kind
            == DataKind::Utf8 && r@[i].nullable,
{
    let mut r: Vec<Field> = Vec::new();
    let mut i: usize = 0;
    while i < names.len()
        invariant
            i <= names@.len(),
            r@.len() == i,
            forall|k: int| 0 <= k < i ==> #[trigger] r@[k].name == names@[k] && r@[k].kind
                == DataKind::Utf8 && r@[k].nullable,
        decreases names.len() - i,
    {
        r.push(plain(names[i], DataKind::Utf8, true));
        i = i + 1;
    }
    r
}

/// The struct pairing a code with its description.
fn codigo_descricao() -> (k: DataKind)
    ensures
        is_codigo_descricao(k),
{
    let a: [&'static str; 2] = ["codigo", "descricao"];
    let fs = text_fields(&a);
    assert(are_plain(fs@, seq!["codigo"@, "descricao"@], seq![DataKind::Utf8, DataKind::Utf8]));
    DataKind::Struct(fs)
}

/// The address struct.
fn endereco() -> (k: DataKind)
    ensures
        is_endereco(k),
{
    let a: [&'static str; 6] = ["tipo_logradouro", "logradouro", "numero", "complemento", "bairro", "cep"];
    let fs = text_fields(&a);
    assert(are_plain(
        fs@,
        seq!["tipo_logradouro"@, "logradouro"@, "numero"@, "complemento"@, "bairro"@, "cep"@],
        seq![DataKind::Utf8, DataKind::Utf8, DataKind::Utf8, DataKind::Utf8, DataKind::Utf8, DataKind::Utf8],
    ));
    DataKind::Struct(fs)
}

/// The municipality struct.
fn municipio() -> (k: DataKind)
    ensures
        is_municipio(k),
{
    let a: [&'static str; 3] = ["codigo", "codigo_ibge", "descricao"];
    let fs = text_fields(&a);
    assert(are_plain(
        fs@,
        seq!["codigo"@, "codigo_ibge"@, "descricao"@],
        seq![DataKind::Utf8, DataKind::Utf8, DataKind::Utf8],
    ));
    DataKind::Struct(fs)
}

/// The partner (`socio`) struct.
fn socio() -> (k: DataKind)
    ensures
        is_socio(k),
{
    let mut fs: Vec<Field> = Vec::new();
    fs.push(plain("identificador_de_socio", DataKind::Int32, true));
    fs.push(plain("nome_socio", DataKind::Utf8, true));
    fs.push(plain("cnpj_cpf_do_socio", DataKind::Utf8, true));
    fs.push(plain("codigo_qualificacao_socio", DataKind::Int32, true));
    fs.push(plain("qualificacao_socio", DataKind::Utf8, true));
    fs.push(plain("data_entrada_sociedade", DataKind::Date32, true));
    fs.push(plain("codigo_pais", DataKind::Utf8, true));
    fs.push(plain("pais", DataKind::Utf8, true));
    fs.push(plain("cpf_representante_legal", DataKind::Utf8, true));
    fs.push(plain("nome_representante_legal", DataKind::Utf8, true));
    fs.push(plain("codigo_qualificacao_representante_legal", DataKind::Int32, true));
    fs.push(plain("qualificacao_representante_legal", DataKind::Utf8, true));
    fs.push(plain("codigo_faixa_etaria", DataKind::Int32, true));
    fs.push(plain("faixa_etaria", DataKind::Utf8, true));
    assert(are_plain(
        fs@,
        seq!["identificador_de_socio"@, "nome_socio"@, "cnpj_cpf_do_socio"@, "codigo_qualificacao_socio"@, "qualificacao_socio"@, "data_entrada_sociedade"@, "codigo_pais"@, "pais"@, "cpf_representante_legal"@, "nome_representante_legal"@, "codigo_qualificacao_representante_legal"@, "qualificacao_representante_legal"@, "codigo_faixa_etaria"@, "faixa_etaria"@],
        seq![DataKind::Int32, DataKind::Utf8, DataKind::Utf8, DataKind::Int32, DataKind::Utf8, DataKind::Date32, DataKind::Utf8, DataKind::Utf8, DataKind::Utf8, DataKind::Utf8, DataKind::Int32, DataKind::Utf8, DataKind::Int32, DataKind::Utf8],
    ));
    DataKind::Struct(fs)
}

/// A nullable list whose items have type `kind`.
fn list_of(kind: DataKind) -> (k: DataKind)
    ensures
        k matches DataKind::List(f) && f.name@ == "item"@ && f.nullable && f.kind == kind,
{
    DataKind::List(Box::new(plain("item", kind, true)))
}

/// The schema of the `companies` table, one row per establishment.
pub fn companies_schema() -> (r: Vec<Field>)
    ensures
        is_companies_schema(r@),
{
    let mut fs: Vec<Field> = Vec::new();
    fs.push(plain("cnpj", DataKind::Utf8, false));
    fs.push(plain("cnpj_raiz", DataKind::Utf8, false));
    fs.push(plain("razao_social", DataKind::Utf8, true));
    fs.push(plain("nome_fantasia", DataKind::Utf8, true));
    fs.push(plain("situacao_cadastral", DataKind::Utf8, true));
    fs.push(plain("data_situacao_cadastral", DataKind::Date32, true));
    fs.push(plain("motivo_situacao_cadastral", codigo_descricao(), true));
    fs.push(plain("data_inicio_atividade", DataKind::Date32, true));
    fs.push(plain("cnae_fiscal", codigo_descricao(), true));
    fs.push(plain("cnaes_secundarios", list_of(codigo_descricao()), true));
    fs.push(plain("natureza_juridica", codigo_descricao(), true));
    fs.push(plain("qualificacao_responsavel", codigo_descricao(), true));
    fs.push(plain("capital_social", DataKind::Float64, true));
    fs.push(plain("porte", codigo_descricao(), true));
    fs.push(plain("ente_federativo_responsavel", DataKind::Utf8, true));
    fs.push(plain("uf", DataKind::Utf8, false));
    fs.push(plain("municipio", municipio(), true));
    fs.push(plain("pais", codigo_descricao(), true));
    fs.push(plain("endereco", endereco(), true));
    fs.push(plain("email", DataKind::Utf8, true));
    fs.push(plain("telefones", list_of(DataKind::Utf8), true));
    fs.push(plain("qsa", list_of(socio()), true));
    fs.push(plain("opcao_pelo_simples", DataKind::Boolean, true));
    fs.push(plain("data_opcao_pelo_simples", DataKind::Date32, true));
    fs.push(plain("data_exclusao_do_simples", DataKind::Date32, true));
    fs.push(plain("opcao_pelo_mei", DataKind::Boolean, true));
    fs.push(plain("data_opcao_pelo_mei", DataKind::Date32, true));
    fs.push(plain("data_exclusao_do_mei", DataKind::Date32, true));
    fs
}

} // verus!
